//! Substrate reference (`@`-prefixed nav-ref).
//!
//! `Ref` is the path-shaped type any prism consumer uses to name a
//! substrate location: `@`-prefixed refs name substrate actions, paths, or
//! addressable locations (e.g. `@kintsugi/fracture/rename`, `@quantize`,
//! `@cli/new`).
//!
//! The validating constructor is the hardening boundary: it rejects empty
//! input, a missing `@` prefix, the bare `@` (no path), whitespace, and
//! the full control-character range (C0, DEL and C1).
//!
//! There is deliberately no `Default`: an "empty" `@`-prefixed ref is
//! meaningless.
use vstd::prelude::*;

verus! {

broadcast use vstd::string::group_string_axioms;

/// The Unicode `White_Space` property, which `char::is_whitespace` tests:
/// U+0009..=U+000D, U+0020, U+0085, U+00A0, U+1680, U+2000..=U+200A,
/// U+2028, U+2029, U+202F, U+205F and U+3000.
pub open spec fn char_white_space(c: char) -> bool {
    ('\u{9}' <= c && c <= '\u{d}') || c == '\u{20}' || c == '\u{85}' || c == '\u{a0}' || c
        == '\u{1680}' || ('\u{2000}' <= c && c <= '\u{200a}') || c == '\u{2028}' || c
        == '\u{2029}' || c == '\u{202f}' || c == '\u{205f}' || c == '\u{3000}'
}

/// A control character: the general category `Cc`, which is the C0 range
/// U+0000..=U+001F, U+007F, and the C1 range U+0080..=U+009F.
pub open spec fn is_control_char(c: char) -> bool {
    c <= '\u{1f}' || ('\u{7f}' <= c && c <= '\u{9f}')
}

/// Whether some character of `p` is whitespace.
pub open spec fn has_white_space(p: Seq<char>) -> bool {
    exists|i: int| 0 <= i < p.len() && #[trigger] char_white_space(p[i])
}

/// Whether some character of `p` is a control character.
pub open spec fn has_control(p: Seq<char>) -> bool {
    exists|i: int| 0 <= i < p.len() && #[trigger] is_control_char(p[i])
}

/// A valid substrate reference: `@`, then at least one more character,
/// with no whitespace and no control character anywhere.
pub open spec fn ref_valid(p: Seq<char>) -> bool {
    &&& p.len() > 1
    &&& p[0] == '@'
    &&& !has_white_space(p)
    &&& !has_control(p)
}

/// The error `Ref::new` gives for an invalid `p`: the first rule, in
/// order, that `p` breaks.
pub open spec fn ref_rejection(p: Seq<char>) -> Seq<char> {
    if p.len() == 0 {
        "Ref must be non-empty"@
    } else if p[0] != '@' {
        "Ref must start with '@'"@
    } else if p.len() <= 1 {
        "Ref must have a path after '@'"@
    } else if has_white_space(p) {
        "Ref must not contain whitespace"@
    } else {
        "Ref must not contain control characters"@
    }
}

/// Whether `c` is whitespace, as `char::is_whitespace` answers.
fn char_is_whitespace(c: char) -> (r: bool)
    ensures
        r == char_white_space(c),
{
    ('\u{9}' <= c && c <= '\u{d}') || c == '\u{20}' || c == '\u{85}' || c == '\u{a0}' || c
        == '\u{1680}' || ('\u{2000}' <= c && c <= '\u{200a}') || c == '\u{2028}' || c
        == '\u{2029}' || c == '\u{202f}' || c == '\u{205f}' || c == '\u{3000}'
}

/// Whether `c` is a control character, as `char::is_control` answers.
fn char_is_control(c: char) -> (r: bool)
    ensures
        r == is_control_char(c),
{
    c <= '\u{1f}' || ('\u{7f}' <= c && c <= '\u{9f}')
}

/// What the validator rejects, character by character: a whitespace
/// character at any position of the path (the one right after `@`
/// included) makes it invalid, and once the `@` prefix and a path are
/// present the rejection names whitespace; a control character at any
/// position makes it invalid too. A valid path starts with `@` and has a
/// character after it.
pub proof fn lemma_ref_rejects_every_position(p: Seq<char>, i: int)
    requires
        0 <= i < p.len(),
    ensures
        char_white_space(p[i]) ==> !ref_valid(p),
        char_white_space(p[i]) && p[0] == '@' && p.len() > 1 ==> ref_rejection(p)
            == "Ref must not contain whitespace"@,
        is_control_char(p[i]) ==> !ref_valid(p),
        ref_valid(p) ==> p[0] == '@' && p.len() > 1,
{
}

/// A substrate reference, like `"@kintsugi/fracture/rename"`. Newtype
/// with `@`-prefix, non-empty, no-whitespace, no-control validation at
/// construction.
#[derive(Clone, Debug, PartialEq, Eq, Hash, PartialOrd, Ord)]
pub struct Ref(String);

impl View for Ref {
    type V = Seq<char>;

    closed spec fn view(&self) -> Seq<char> {
        self.0@
    }
}

impl Ref {
    /// Construct. Returns `Err` if `path` is empty, lacks the `@` prefix,
    /// has no path after the `@`, contains whitespace, or contains a
    /// control character; the first of these that applies names the
    /// error.
    pub fn new(path: &str) -> (r: Result<Ref, &'static str>)
        ensures
            match r {
                Ok(rf) => ref_valid(path@) && rf@ == path@,
                Err(e) => !ref_valid(path@) && e@ == ref_rejection(path@),
            },
            forall|i: int|
                0 <= i < path@.len() && #[trigger] char_white_space(path@[i]) ==> r is Err,
            forall|i: int|
                0 <= i < path@.len() && #[trigger] char_white_space(path@[i]) && path@[0] == '@'
                    && path@.len() > 1 ==> (r matches Err(e) && e@
                    == "Ref must not contain whitespace"@),
            forall|i: int| 0 <= i < path@.len() && #[trigger] is_control_char(path@[i]) ==> r is Err,
            r is Ok ==> path@[0] == '@' && path@.len() > 1,
    {
        if path.is_empty() {
            return Err("Ref must be non-empty");
        }
        if path.get_char(0) != '@' {
            return Err("Ref must start with '@'");
        }
        let n = path.unicode_len();
        if n <= 1 {
            return Err("Ref must have a path after '@'");
        }
        let mut white = false;
        let mut control = false;
        let mut i: usize = 0;
        while i < n
            invariant
                n == path@.len(),
                0 <= i <= n,
                white == exists|k: int| 0 <= k < i && #[trigger] char_white_space(path@[k]),
                control == exists|k: int| 0 <= k < i && #[trigger] is_control_char(path@[k]),
            decreases n - i,
        {
            let c = path.get_char(i);
            if char_is_whitespace(c) {
                white = true;
            }
            if char_is_control(c) {
                control = true;
            }
            proof {
                if !white {
                    assert forall|k: int| 0 <= k < i + 1 implies !#[trigger] char_white_space(path@[k]) by {
                        if k == i {
                        }
                    }
                }
                if !control {
                    assert forall|k: int| 0 <= k < i + 1 implies !#[trigger] is_control_char(path@[k]) by {
                        if k == i {
                        }
                    }
                }
            }
            i = i + 1;
        }
        if white {
            return Err("Ref must not contain whitespace");
        }
        if control {
            return Err("Ref must not contain control characters");
        }
        Ok(Ref(path.to_owned()))
    }

    /// Borrow the underlying `&str`.
    pub fn as_str(&self) -> (r: &str)
        ensures
            r@ == self@,
    {
        self.0.as_str()
    }
}

} // verus!
