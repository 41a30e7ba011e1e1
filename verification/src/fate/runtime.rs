//! FateRuntime: Fate's inference engine.
//!
//! Under the hood: a Brainfuck interpreter. The program IS the model, the
//! interpreter IS the runtime, the tape IS the spectral state.
use vstd::prelude::*;

use crate::fate::weights::{cycle_bias, Weights};
use crate::fate::{model_index, model_of_index, Model};

verus! {

// ---------------------------------------------------------------------------
// Semantics of the interpreter
// ---------------------------------------------------------------------------

/// The eight instruction bytes of the language.
pub open spec fn is_bf_instruction(b: u8) -> bool {
    b == 62u8 || b == 60u8 || b == 43u8 || b == 45u8 || b == 46u8 || b == 44u8 || b == 91u8
        || b == 93u8
}

/// Keep the instruction bytes of `s`, in order, dropping everything else.
pub open spec fn bf_instructions(s: Seq<u8>) -> Seq<u8>
    decreases s.len(),
{
    if s.len() == 0 {
        Seq::empty()
    } else if is_bf_instruction(s.last()) {
        bf_instructions(s.drop_last()).push(s.last())
    } else {
        bf_instructions(s.drop_last())
    }
}

/// One pass of bracket matching from position `i`, with the indices of
/// the still-open `[` on `stack`: each `]` is paired with the innermost
/// open `[`, and both entries of `map` record their partner. Unmatched
/// brackets keep their entry.
pub open spec fn bracket_pass(p: Seq<u8>, i: nat, stack: Seq<nat>, map: Seq<nat>) -> Seq<nat>
    decreases p.len() - i,
{
    if i >= p.len() {
        map
    } else if p[i as int] == 91u8 {
        bracket_pass(p, i + 1, stack.push(i), map)
    } else if p[i as int] == 93u8 && stack.len() > 0 {
        let j = stack.last();
        bracket_pass(p, i + 1, stack.drop_last(), map.update(i as int, j).update(j as int, i))
    } else {
        bracket_pass(p, i + 1, stack, map)
    }
}

/// The bracket partner table of program `p` (all entries start at 0).
pub open spec fn bracket_map(p: Seq<u8>) -> Seq<nat> {
    bracket_pass(p, 0, Seq::empty(), Seq::new(p.len(), |k: int| 0nat))
}

/// The machine state of the interpreter.
pub struct BfState {
    pub tape: Seq<u8>,
    pub dp: nat,
    pub ip: nat,
    pub inp: nat,
    pub output: Seq<u8>,
}

/// The state before the first instruction: a zeroed 256-cell tape.
pub open spec fn bf_initial() -> BfState {
    BfState {
        tape: Seq::new(256, |k: int| 0u8),
        dp: 0,
        ip: 0,
        inp: 0,
        output: Seq::empty(),
    }
}

/// Execute the instruction at `s.ip` and advance. The data pointer stays
/// within the 256-cell tape (saturating at both ends), cells wrap modulo
/// 256, `,` past the end of the input reads 0, and a bracket jumps to its
/// partner when its condition holds.
pub open spec fn bf_step(p: Seq<u8>, map: Seq<nat>, input: Seq<u8>, s: BfState) -> BfState {
    let c = p[s.ip as int];
    let cell = s.tape[s.dp as int];
    let moved = if c == 62u8 {
        BfState { dp: if s.dp + 1 > 255 { 255 } else { s.dp + 1 }, ..s }
    } else if c == 60u8 {
        BfState { dp: if s.dp == 0 { 0 } else { (s.dp - 1) as nat }, ..s }
    } else if c == 43u8 {
        BfState { tape: s.tape.update(s.dp as int, (if cell == 255u8 { 0u8 } else { (cell + 1) as u8 })), ..s }
    } else if c == 45u8 {
        BfState { tape: s.tape.update(s.dp as int, (if cell == 0u8 { 255u8 } else { (cell - 1) as u8 })), ..s }
    } else if c == 46u8 {
        BfState { output: s.output.push(cell), ..s }
    } else if c == 44u8 {
        BfState {
            tape: s.tape.update(s.dp as int, if s.inp < input.len() { input[s.inp as int] } else { 0u8 }),
            inp: s.inp + 1,
            ..s
        }
    } else if c == 91u8 && cell == 0u8 {
        BfState { ip: map[s.ip as int], ..s }
    } else if c == 93u8 && cell != 0u8 {
        BfState { ip: map[s.ip as int], ..s }
    } else {
        s
    };
    BfState { ip: moved.ip + 1, ..moved }
}

/// Run for at most `fuel` steps, stopping when the instruction pointer
/// leaves the program.
pub open spec fn bf_run(p: Seq<u8>, map: Seq<nat>, input: Seq<u8>, s: BfState, fuel: nat) -> BfState
    decreases fuel,
{
    if fuel == 0 || s.ip >= p.len() {
        s
    } else {
        bf_run(p, map, input, bf_step(p, map, input, s), (fuel - 1) as nat)
    }
}

/// The step budget of the interpreter.
pub open spec fn bf_max_steps() -> nat {
    1_000_000
}

/// The output of running program `p` on `input` within the step budget.
pub open spec fn bf_output(p: Seq<u8>, input: Seq<u8>) -> Seq<u8> {
    bf_run(p, bracket_map(p), input, bf_initial(), bf_max_steps()).output
}

proof fn lemma_bracket_pass_bounded(p: Seq<u8>, i: nat, stack: Seq<nat>, map: Seq<nat>)
    requires
        map.len() == p.len(),
        forall|k: int| 0 <= k < map.len() ==> map[k] < p.len(),
        forall|k: int| 0 <= k < stack.len() ==> stack[k] < p.len(),
    ensures
        bracket_pass(p, i, stack, map).len() == p.len(),
        forall|k: int|
            0 <= k < p.len() ==> #[trigger] bracket_pass(p, i, stack, map)[k] < p.len(),
    decreases p.len() - i,
{
    if i >= p.len() {
    } else if p[i as int] == 91u8 {
        lemma_bracket_pass_bounded(p, i + 1, stack.push(i), map);
    } else if p[i as int] == 93u8 && stack.len() > 0 {
        let j = stack.last();
        lemma_bracket_pass_bounded(p, i + 1, stack.drop_last(), map.update(i as int, j).update(j as int, i));
    } else {
        lemma_bracket_pass_bounded(p, i + 1, stack, map);
    }
}

proof fn lemma_bracket_pass_pairs(p: Seq<u8>, i: nat, stack: Seq<nat>, map: Seq<nat>)
    requires
        i <= p.len(),
        map.len() == p.len(),
        forall|t: int|
            0 <= t < stack.len() ==> #[trigger] stack[t] < i && p[stack[t] as int] == 91u8
                && map[stack[t] as int] == 0,
        forall|t1: int, t2: int| 0 <= t1 < t2 < stack.len() ==> stack[t1] < stack[t2],
        forall|k: int| i <= k < p.len() ==> #[trigger] map[k] == 0,
        forall|k: int|
            0 <= k < p.len() && p[k] == 91u8 && #[trigger] map[k] != 0 ==> k < map[k] < i
                && p[map[k] as int] == 93u8 && map[map[k] as int] == k,
        forall|k: int|
            0 <= k < p.len() && p[k] == 93u8 && #[trigger] map[k] != 0 ==> map[k] < k
                && p[map[k] as int] == 91u8 && map[map[k] as int] == k,
    ensures
        ({
            let r = bracket_pass(p, i, stack, map);
            &&& r.len() == p.len()
            &&& forall|k: int|
                0 <= k < p.len() && p[k] == 91u8 && #[trigger] r[k] != 0 ==> k < r[k] < p.len()
                    && p[r[k] as int] == 93u8 && r[r[k] as int] == k
            &&& forall|k: int|
                0 <= k < p.len() && p[k] == 93u8 && #[trigger] r[k] != 0 ==> r[k] < k
                    && p[r[k] as int] == 91u8 && r[r[k] as int] == k
        }),
    decreases p.len() - i,
{
    if i >= p.len() {
    } else if p[i as int] == 91u8 {
        let st = stack.push(i);
        assert forall|t: int| 0 <= t < st.len() implies #[trigger] st[t] < i + 1 && p[st[t] as int]
            == 91u8 && map[st[t] as int] == 0 by {
            if t < stack.len() {
                assert(st[t] == stack[t]);
            }
        }
        lemma_bracket_pass_pairs(p, i + 1, st, map);
    } else if p[i as int] == 93u8 && stack.len() > 0 {
        let j = stack.last();
        let st = stack.drop_last();
        let m2 = map.update(i as int, j).update(j as int, i);
        assert(stack[stack.len() - 1] == j);
        assert forall|t: int| 0 <= t < st.len() implies #[trigger] st[t] < i + 1 && p[st[t] as int]
            == 91u8 && m2[st[t] as int] == 0 by {
            assert(st[t] == stack[t]);
            assert(stack[t] < stack[stack.len() - 1]);
        }
        assert forall|k: int|
            0 <= k < p.len() && p[k] == 91u8 && #[trigger] m2[k] != 0 implies k < m2[k] < i + 1
                && p[m2[k] as int] == 93u8 && m2[m2[k] as int] == k by {
            if k != j {
                assert(k != i);
                assert(m2[k] == map[k]);
            }
        }
        assert forall|k: int|
            0 <= k < p.len() && p[k] == 93u8 && #[trigger] m2[k] != 0 implies m2[k] < k
                && p[m2[k] as int] == 91u8 && m2[m2[k] as int] == k by {
            if k != i {
                assert(k != j);
                assert(m2[k] == map[k]);
                assert(map[k] != j);
            }
        }
        lemma_bracket_pass_pairs(p, i + 1, st, m2);
    } else {
        lemma_bracket_pass_pairs(p, i + 1, stack, map);
    }
}

/// Bracket matching pairs each matched `[` with a `]` after it and each
/// matched `]` with a `[` before it, and the two entries point at each
/// other. An entry of 0 marks an unmatched `[` (a `[` at 0 is matched with
/// a `]` at a later, hence nonzero, position).
pub proof fn lemma_bracket_map_pairs(p: Seq<u8>)
    ensures
        bracket_map(p).len() == p.len(),
        forall|k: int|
            0 <= k < p.len() && p[k] == 91u8 && #[trigger] bracket_map(p)[k] != 0 ==> k
                < bracket_map(p)[k] < p.len() && p[bracket_map(p)[k] as int] == 93u8
                && bracket_map(p)[bracket_map(p)[k] as int] == k,
        forall|k: int|
            0 <= k < p.len() && p[k] == 93u8 && #[trigger] bracket_map(p)[k] != 0 ==> bracket_map(
                p,
            )[k] < k && p[bracket_map(p)[k] as int] == 91u8 && bracket_map(p)[bracket_map(
                p,
            )[k] as int] == k,
{
    lemma_bracket_pass_pairs(p, 0, Seq::empty(), Seq::new(p.len(), |k: int| 0nat));
}

proof fn lemma_bracket_pass_frame(p: Seq<u8>, i: nat, stack: Seq<nat>, map: Seq<nat>, x: int)
    requires
        map.len() == p.len(),
        0 <= x < i,
        forall|t: int| 0 <= t < stack.len() ==> #[trigger] stack[t] < i && stack[t] != x,
    ensures
        bracket_pass(p, i, stack, map)[x] == map[x],
    decreases p.len() - i,
{
    if i >= p.len() {
    } else if p[i as int] == 91u8 {
        let st = stack.push(i);
        assert forall|t: int| 0 <= t < st.len() implies #[trigger] st[t] < i + 1 && st[t] != x by {
            if t < stack.len() {
                assert(st[t] == stack[t]);
            }
        }
        lemma_bracket_pass_frame(p, i + 1, st, map, x);
    } else if p[i as int] == 93u8 && stack.len() > 0 {
        let j = stack.last();
        let st = stack.drop_last();
        assert(stack[stack.len() - 1] == j);
        assert forall|t: int| 0 <= t < st.len() implies #[trigger] st[t] < i + 1 && st[t] != x by {
            assert(st[t] == stack[t]);
        }
        lemma_bracket_pass_frame(p, i + 1, st, map.update(i as int, j).update(j as int, i), x);
    } else {
        lemma_bracket_pass_frame(p, i + 1, stack, map, x);
    }
}

proof fn lemma_bracket_pass_innermost(
    p: Seq<u8>,
    i: nat,
    stack: Seq<nat>,
    map: Seq<nat>,
    k: int,
    j: int,
)
    requires
        map.len() == p.len(),
        i <= k < j < p.len(),
        p[k] == 91u8,
        p[j] == 93u8,
        forall|t: int| k < t < j ==> p[t] != 91u8 && p[t] != 93u8,
        forall|t: int| 0 <= t < stack.len() ==> #[trigger] stack[t] < i,
    ensures
        bracket_pass(p, i, stack, map)[k] == j,
        bracket_pass(p, i, stack, map)[j] == k,
    decreases p.len() - i,
{
    if i < k {
        if p[i as int] == 91u8 {
            let st = stack.push(i);
            assert forall|t: int| 0 <= t < st.len() implies #[trigger] st[t] < i + 1 by {
                if t < stack.len() {
                    assert(st[t] == stack[t]);
                }
            }
            lemma_bracket_pass_innermost(p, i + 1, st, map, k, j);
        } else if p[i as int] == 93u8 && stack.len() > 0 {
            let st = stack.drop_last();
            assert forall|t: int| 0 <= t < st.len() implies #[trigger] st[t] < i + 1 by {
                assert(st[t] == stack[t]);
            }
            lemma_bracket_pass_innermost(
                p,
                i + 1,
                st,
                map.update(i as int, stack.last()).update(stack.last() as int, i),
                k,
                j,
            );
        } else {
            lemma_bracket_pass_innermost(p, i + 1, stack, map, k, j);
        }
    } else {
        let st = stack.push(i);
        lemma_bracket_pass_skip(p, i + 1, j as nat, st, map);
        assert(st.last() == k);
        assert(st.drop_last() =~= stack);
        let m2 = map.update(j, k as nat).update(k, j as nat);
        assert forall|t: int| 0 <= t < stack.len() implies #[trigger] stack[t] < j + 1
            && stack[t] != k by {}
        lemma_bracket_pass_frame(p, (j + 1) as nat, stack, m2, k);
        assert forall|t: int| 0 <= t < stack.len() implies #[trigger] stack[t] < j + 1
            && stack[t] != j by {}
        lemma_bracket_pass_frame(p, (j + 1) as nat, stack, m2, j);
    }
}

proof fn lemma_bracket_pass_skip(p: Seq<u8>, i: nat, j: nat, stack: Seq<nat>, map: Seq<nat>)
    requires
        i <= j <= p.len(),
        forall|t: int| i <= t < j ==> p[t] != 91u8 && p[t] != 93u8,
    ensures
        bracket_pass(p, i, stack, map) == bracket_pass(p, j, stack, map),
    decreases j - i,
{
    if i < j {
        lemma_bracket_pass_skip(p, i + 1, j, stack, map);
    }
}

/// An innermost loop (a `[` and a later `]` with no bracket between them)
/// is matched: each of the two entries points at the other.
pub proof fn lemma_bracket_map_innermost(p: Seq<u8>, k: int, j: int)
    requires
        0 <= k < j < p.len(),
        p[k] == 91u8,
        p[j] == 93u8,
        forall|t: int| k < t < j ==> p[t] != 91u8 && p[t] != 93u8,
    ensures
        bracket_map(p)[k] == j,
        bracket_map(p)[j] == k,
{
    lemma_bracket_pass_innermost(p, 0, Seq::empty(), Seq::new(p.len(), |t: int| 0nat), k, j);
}

/// A loop entered with a zero cell runs its body zero times: the run goes
/// on at the instruction right after the matching `]`, with the tape, the
/// data pointer, the input position and the output as they were.
pub proof fn lemma_bf_zero_cell_skips_loop(p: Seq<u8>, input: Seq<u8>, s: BfState, fuel: nat)
    requires
        s.ip < p.len(),
        s.dp < s.tape.len(),
        p[s.ip as int] == 91u8,
        s.tape[s.dp as int] == 0u8,
        bracket_map(p)[s.ip as int] != 0,
    ensures
        ({
            let m = bracket_map(p)[s.ip as int];
            &&& s.ip < m < p.len()
            &&& p[m as int] == 93u8
            &&& bf_run(p, bracket_map(p), input, s, fuel + 1) == bf_run(
                p,
                bracket_map(p),
                input,
                BfState { tape: s.tape, dp: s.dp, ip: m + 1, inp: s.inp, output: s.output },
                fuel,
            )
        }),
{
    lemma_bracket_map_pairs(p);
    let map = bracket_map(p);
    assert(bf_step(p, map, input, s) == BfState {
        tape: s.tape,
        dp: s.dp,
        ip: map[s.ip as int] + 1,
        inp: s.inp,
        output: s.output,
    });
}

/// A loop entered with a nonzero cell runs its body: the run goes on at the
/// instruction right after the `[`, with nothing else changed.
pub proof fn lemma_bf_nonzero_cell_enters_loop(p: Seq<u8>, input: Seq<u8>, s: BfState, fuel: nat)
    requires
        s.ip < p.len(),
        s.dp < s.tape.len(),
        p[s.ip as int] == 91u8,
        s.tape[s.dp as int] != 0u8,
    ensures
        bf_run(p, bracket_map(p), input, s, fuel + 1) == bf_run(
            p,
            bracket_map(p),
            input,
            BfState { tape: s.tape, dp: s.dp, ip: s.ip + 1, inp: s.inp, output: s.output },
            fuel,
        ),
{
    let map = bracket_map(p);
    assert(bf_step(p, map, input, s) == BfState {
        tape: s.tape,
        dp: s.dp,
        ip: s.ip + 1,
        inp: s.inp,
        output: s.output,
    });
}

/// At a matched `]` with a nonzero cell the loop repeats: the run goes on
/// at the first instruction of the body, right after the matching `[`.
/// With a zero cell the loop ends and the run goes on after the `]`.
pub proof fn lemma_bf_loop_end(p: Seq<u8>, input: Seq<u8>, s: BfState, fuel: nat)
    requires
        s.ip < p.len(),
        s.dp < s.tape.len(),
        p[s.ip as int] == 93u8,
    ensures
        ({
            let m = bracket_map(p)[s.ip as int];
            &&& s.tape[s.dp as int] != 0u8 && m != 0 ==> m < s.ip && p[m as int] == 91u8
                && bf_run(p, bracket_map(p), input, s, fuel + 1) == bf_run(
                p,
                bracket_map(p),
                input,
                BfState { tape: s.tape, dp: s.dp, ip: m + 1, inp: s.inp, output: s.output },
                fuel,
            )
            &&& s.tape[s.dp as int] == 0u8 ==> bf_run(p, bracket_map(p), input, s, fuel + 1)
                == bf_run(
                p,
                bracket_map(p),
                input,
                BfState { tape: s.tape, dp: s.dp, ip: s.ip + 1, inp: s.inp, output: s.output },
                fuel,
            )
        }),
{
    lemma_bracket_map_pairs(p);
    let map = bracket_map(p);
    if s.tape[s.dp as int] != 0u8 {
        assert(bf_step(p, map, input, s) == BfState {
            tape: s.tape,
            dp: s.dp,
            ip: map[s.ip as int] + 1,
            inp: s.inp,
            output: s.output,
        });
    } else {
        assert(bf_step(p, map, input, s) == BfState {
            tape: s.tape,
            dp: s.dp,
            ip: s.ip + 1,
            inp: s.inp,
            output: s.output,
        });
    }
}

fn compute_bracket_map(program: &[u8]) -> (r: Vec<usize>)
    ensures
        r@.len() == program@.len(),
        forall|k: int| 0 <= k < r@.len() ==> r@[k] as nat == bracket_map(program@)[k],
        forall|k: int| 0 <= k < r@.len() ==> r@[k] < program@.len(),
{
    let ghost p = program@;
    let mut map: Vec<usize> = Vec::new();
    let mut k: usize = 0;
    while k < program.len()
        invariant
            0 <= k <= program@.len(),
            map@.len() == k,
            forall|t: int| 0 <= t < k ==> map@[t] == 0usize,
        decreases program@.len() - k,
    {
        map.push(0);
        k = k + 1;
    }
    let ghost init_map = Seq::new(p.len(), |t: int| 0nat);
    assert(map@.map_values(|x: usize| x as nat) =~= init_map);
    proof {
        lemma_bracket_pass_bounded(p, 0, Seq::empty(), init_map);
    }
    let mut stack: Vec<usize> = Vec::new();
    assert(stack@.map_values(|x: usize| x as nat) =~= Seq::<nat>::empty());
    let mut i: usize = 0;
    while i < program.len()
        invariant
            p == program@,
            0 <= i <= p.len(),
            map@.len() == p.len(),
            forall|t: int| 0 <= t < map@.len() ==> map@[t] < p.len(),
            forall|t: int| 0 <= t < stack@.len() ==> stack@[t] < i,
            bracket_pass(
                p,
                i as nat,
                stack@.map_values(|x: usize| x as nat),
                map@.map_values(|x: usize| x as nat),
            ) == bracket_map(p),
        decreases p.len() - i,
    {
        let ghost st = stack@.map_values(|x: usize| x as nat);
        let ghost mp = map@.map_values(|x: usize| x as nat);
        if program[i] == 91u8 {
            stack.push(i);
            assert(stack@.map_values(|x: usize| x as nat) =~= st.push(i as nat));
        } else if program[i] == 93u8 {
            match stack.pop() {
                Some(j) => {
                    map.set(i, j);
                    map.set(j, i);
                    assert(stack@.map_values(|x: usize| x as nat) =~= st.drop_last());
                    assert(map@.map_values(|x: usize| x as nat) =~= mp.update(i as int, j as nat).update(
                        j as int,
                        i as nat,
                    ));
                },
                None => {
                    assert(st.len() == 0);
                },
            }
        }
        i = i + 1;
    }
    let r = map;
    assert forall|k: int| 0 <= k < r@.len() implies r@[k] as nat == bracket_map(p)[k] by {
        assert(r@.map_values(|x: usize| x as nat)[k] == r@[k] as nat);
    }
    r
}

/// Execute a program with the given input bytes and return the output
/// bytes: the semantics `bf_run` over at most one million steps.
fn bf_execute(program: &[u8], input: &[u8]) -> (r: Vec<u8>)
    ensures
        r@ == bf_output(program@, input@),
{
    let ghost p = program@;
    let mut tape: Vec<u8> = Vec::new();
    let mut k: usize = 0;
    while k < 256
        invariant
            0 <= k <= 256,
            tape@.len() == k,
            forall|t: int| 0 <= t < k ==> tape@[t] == 0u8,
        decreases 256 - k,
    {
        tape.push(0u8);
        k = k + 1;
    }
    assert(tape@ =~= bf_initial().tape);
    let bracket = compute_bracket_map(program);
    let ghost map = bracket_map(p);
    let mut dp: usize = 0;
    let mut ip: usize = 0;
    let mut inp: usize = 0;
    let mut output: Vec<u8> = Vec::new();
    let mut steps: usize = 0;
    let max_steps: usize = 1_000_000;
    while ip < program.len() && steps < max_steps
        invariant
            p == program@,
            bracket@.len() == p.len(),
            forall|t: int| 0 <= t < bracket@.len() ==> bracket@[t] as nat == map[t],
            forall|t: int| 0 <= t < bracket@.len() ==> bracket@[t] < p.len(),
            max_steps == 1_000_000,
            tape@.len() == 256,
            dp < 256,
            ip <= p.len(),
            inp <= steps,
            steps <= max_steps,
            map == bracket_map(p),
            bf_run(
                p,
                map,
                input@,
                BfState { tape: tape@, dp: dp as nat, ip: ip as nat, inp: inp as nat, output: output@ },
                (bf_max_steps() - steps) as nat,
            ) == bf_run(p, map, input@, bf_initial(), bf_max_steps()),
        decreases bf_max_steps() - steps,
    {
        let ghost s = BfState {
            tape: tape@,
            dp: dp as nat,
            ip: ip as nat,
            inp: inp as nat,
            output: output@,
        };
        let ghost next = bf_step(p, map, input@, s);
        let c = program[ip];
        if c == 62u8 {
            dp = if dp + 1 > 255 { 255 } else { dp + 1 };
        } else if c == 60u8 {
            dp = if dp == 0 { 0 } else { dp - 1 };
        } else if c == 43u8 {
            let v = tape[dp];
            tape.set(dp, v.wrapping_add(1));
        } else if c == 45u8 {
            let v = tape[dp];
            tape.set(dp, v.wrapping_sub(1));
        } else if c == 46u8 {
            output.push(tape[dp]);
        } else if c == 44u8 {
            let v = if inp < input.len() { input[inp] } else { 0u8 };
            tape.set(dp, v);
            inp = inp + 1;
        } else if c == 91u8 {
            if tape[dp] == 0 {
                ip = bracket[ip];
            }
        } else if c == 93u8 {
            if tape[dp] != 0 {
                ip = bracket[ip];
            }
        }
        ip = ip + 1;
        steps = steps + 1;
        assert(tape@ =~= next.tape);
        assert(output@ =~= next.output);
    }
    output
}

// ---------------------------------------------------------------------------
// FateRuntime
// ---------------------------------------------------------------------------

/// The index of `m` as a byte.
fn model_byte(m: Model) -> (r: u8)
    ensures
        r == model_index(m),
{
    match m {
        Model::Abyss => 0u8,
        Model::Introject => 1,
        Model::Cartographer => 2,
        Model::Explorer => 3,
        Model::Fate => 4,
    }
}

/// The runtime input: 16 quantized features, the model index, then the
/// five bias bytes.
pub open spec fn encoded_input(model_idx: u8, features: Seq<u8>, bias: Seq<u8>) -> Seq<u8> {
    features.push(model_idx) + bias
}

/// The FateRuntime: runs Fate's inference via the interpreter.
pub struct FateRuntime {
    program: Vec<u8>,
}

impl FateRuntime {
    /// The instruction bytes this runtime executes.
    pub closed spec fn spec_program(&self) -> Seq<u8> {
        self.program@
    }

    /// Create a runtime from a program's source text: the instruction bytes
    /// are kept in order and everything else is dropped.
    pub fn new(source: &[u8]) -> (r: Self)
        ensures
            r.spec_program() == bf_instructions(source@),
    {
        let mut program: Vec<u8> = Vec::new();
        let mut i: usize = 0;
        while i < source.len()
            invariant
                0 <= i <= source@.len(),
                program@ == bf_instructions(source@.subrange(0, i as int)),
            decreases source@.len() - i,
        {
            let b = source[i];
            assert(source@.subrange(0, i + 1).drop_last() =~= source@.subrange(0, i as int));
            if b == 62u8 || b == 60u8 || b == 43u8 || b == 45u8 || b == 46u8 || b == 44u8 || b
                == 91u8 || b == 93u8 {
                program.push(b);
            }
            i = i + 1;
        }
        assert(source@.subrange(0, source@.len() as int) =~= source@);
        FateRuntime { program }
    }

    /// Encode 16 quantized features, a model index and explicit biases as
    /// 22 input bytes.
    pub fn encode_input_with_bias(model_idx: u8, features: &[u8; 16], bias: &[u8; 5]) -> (r: Vec<
        u8,
    >)
        ensures
            r@ == encoded_input(model_idx, features@, bias@),
            r@.len() == 22,
    {
        let mut input: Vec<u8> = Vec::with_capacity(22);
        let mut i: usize = 0;
        while i < 16
            invariant
                0 <= i <= 16,
                input@ == features@.subrange(0, i as int),
            decreases 16 - i,
        {
            input.push(features[i]);
            i = i + 1;
        }
        input.push(model_idx);
        let mut j: usize = 0;
        while j < 5
            invariant
                0 <= j <= 5,
                input@ == features@.push(model_idx) + bias@.subrange(0, j as int),
            decreases 5 - j,
        {
            input.push(bias[j]);
            j = j + 1;
            assert(bias@.subrange(0, j as int) =~= bias@.subrange(0, (j - 1) as int).push(bias@[j - 1]));
        }
        assert(bias@.subrange(0, 5) =~= bias@);
        input
    }

    /// Encode quantized features and a model with the default-cycle biases
    /// for that model's context.
    pub fn encode_input(model: Model, features: &[u8; 16]) -> (r: Vec<u8>)
        ensures
            r@ == encoded_input(
                model_index(model) as u8,
                features@,
                cycle_bias((model_index(model) + 1) % 5)@,
            ),
    {
        let model_idx = model_byte(model);
        let default_weights = Weights::default_cycle();
        let bias = default_weights.sets[model_idx as usize].bias;
        Self::encode_input_with_bias(model_idx, features, &bias)
    }

    /// Decode the first output byte as a Model (empty output and bytes
    /// past 4 fall back to `Abyss`).
    pub fn decode_output(output: &[u8]) -> (r: Model)
        ensures
            r == (if output@.len() == 0 {
                Model::Abyss
            } else {
                model_of_index(output@[0] as int)
            }),
    {
        let b = if output.len() == 0 { 0u8 } else { output[0] };
        match b {
            0 => Model::Abyss,
            1 => Model::Introject,
            2 => Model::Cartographer,
            3 => Model::Explorer,
            4 => Model::Fate,
            _ => Model::Abyss,
        }
    }

    /// Run the selector: (current model, quantized features) to next model.
    pub fn select(&self, current: Model, features: &[u8; 16]) -> (r: Model)
        ensures
            ({
                let out = bf_output(
                    self.spec_program(),
                    encoded_input(
                        model_index(current) as u8,
                        features@,
                        cycle_bias((model_index(current) + 1) % 5)@,
                    ),
                );
                r == (if out.len() == 0 {
                    Model::Abyss
                } else {
                    model_of_index(out[0] as int)
                })
            }),
    {
        let input = Self::encode_input(current, features);
        let output = bf_execute(self.program.as_slice(), input.as_slice());
        Self::decode_output(output.as_slice())
    }

    /// The instruction count of the program.
    pub fn instruction_count(&self) -> (r: usize)
        ensures
            r == self.spec_program().len(),
    {
        self.program.len()
    }
}

// ---------------------------------------------------------------------------
// CompiledFateRuntime
// ---------------------------------------------------------------------------

/// The compiled Fate runtime: the selector program built to native code,
/// with the same input encoding and output decoding as [`FateRuntime`].
pub struct CompiledFateRuntime;

impl CompiledFateRuntime {
    /// Create a new CompiledFateRuntime.
    pub fn new() -> (r: Self)
        ensures
            r == CompiledFateRuntime,
    {
        CompiledFateRuntime
    }
}

impl Default for CompiledFateRuntime {
    fn default() -> (r: Self)
        ensures
            r == CompiledFateRuntime,
    {
        CompiledFateRuntime::new()
    }
}

// ---------------------------------------------------------------------------
// UniversalRuntime
// ---------------------------------------------------------------------------

/// The first output byte of a run, or 0 when the run printed nothing.
pub open spec fn first_or_zero(out: Seq<u8>) -> u8 {
    if out.len() == 0 {
        0u8
    } else {
        out[0]
    }
}

/// The UniversalRuntime: the Fate algorithm with an injected weight table.
pub struct UniversalRuntime {
    weights: Weights,
}

impl UniversalRuntime {
    /// The stored weights.
    pub closed spec fn spec_weights(&self) -> Weights {
        self.weights
    }

    /// Create a new UniversalRuntime with the given weights.
    pub fn new(weights: Weights) -> (r: Self)
        ensures
            r.spec_weights() == weights,
    {
        UniversalRuntime { weights }
    }

    /// Run the algorithm: encode the 16 features, append `context`, inject
    /// the bias bytes of weight set `context % 5`, run the selector program
    /// and return its first output byte (0 when it prints nothing).
    pub fn run(&self, selector: &FateRuntime, context: u8, features: &[u8; 16]) -> (r: u8)
        ensures
            r == first_or_zero(
                bf_output(
                    selector.spec_program(),
                    encoded_input(context, features@, self.spec_weights().sets[(context % 5) as int].bias@),
                ),
            ),
    {
        let set = &self.weights.sets[(context % 5) as usize];
        let input = FateRuntime::encode_input_with_bias(context, features, &set.bias);
        let output = bf_execute(selector.program.as_slice(), input.as_slice());
        if output.len() == 0 {
            0
        } else {
            output[0]
        }
    }

    /// Run with `current`'s index as the context and decode the result as a
    /// Model (bytes past 4 fall back to `Abyss`).
    pub fn select(&self, selector: &FateRuntime, current: Model, features: &[u8; 16]) -> (r:
        Model)
        ensures
            r == model_of_index(
                first_or_zero(
                    bf_output(
                        selector.spec_program(),
                        encoded_input(
                            model_index(current) as u8,
                            features@,
                            self.spec_weights().sets[model_index(current)].bias@,
                        ),
                    ),
                ) as int,
            ),
    {
        let context = model_byte(current);
        let b = self.run(selector, context, features);
        let out: [u8; 1] = [b];
        FateRuntime::decode_output(&out)
    }

    /// Access the stored weights.
    pub fn weights(&self) -> (r: &Weights)
        ensures
            *r == self.spec_weights(),
    {
        &self.weights
    }
}

/// With the default-cycle weights, the universal runtime selects exactly
/// what the interpreter selects: both feed the selector the same 22 bytes
/// and decode its first output byte the same way.
pub proof fn lemma_universal_default_cycle_matches_interpreter(
    selector: FateRuntime,
    universal: UniversalRuntime,
    current: Model,
    features: Seq<u8>,
)
    requires
        forall|i: int|
            0 <= i < 5 ==> #[trigger] universal.spec_weights().sets[i].bias == cycle_bias(
                (i + 1) % 5,
            ),
    ensures
        ({
            let out = bf_output(
                selector.spec_program(),
                encoded_input(
                    model_index(current) as u8,
                    features,
                    cycle_bias((model_index(current) + 1) % 5)@,
                ),
            );
            (if out.len() == 0 {
                Model::Abyss
            } else {
                model_of_index(out[0] as int)
            }) == model_of_index(
                first_or_zero(
                    bf_output(
                        selector.spec_program(),
                        encoded_input(
                            model_index(current) as u8,
                            features,
                            universal.spec_weights().sets[model_index(current)].bias@,
                        ),
                    ),
                ) as int,
            )
        }),
{
    let i = model_index(current);
    assert(universal.spec_weights().sets[i].bias == cycle_bias((i + 1) % 5));
}

} // verus!
