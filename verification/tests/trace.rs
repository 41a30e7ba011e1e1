use prismqueer::trace::{Op, Step, StepOutput, Trace};
use terni::Loss;

/// The values one pipeline's steps carry: a count or a text.
#[derive(Debug, PartialEq)]
enum Val {
    U32(u32),
    Text(String),
}

fn step(prism: &'static str, op: Op, input: Val, output: Val) -> Step<Val, f64> {
    Step {
        prism,
        op,
        loss: <f64 as Loss>::zero(),
        input,
        output: StepOutput::Value(output),
    }
}

#[test]
fn trace_starts_empty() {
    let t: Trace<Val, f64> = Trace::new();
    assert!(t.is_empty());
    assert_eq!(t.len(), 0);
}

#[test]
fn trace_push_and_len() {
    let mut t = Trace::new();
    t.push(step("test", Op::Focus, Val::U32(42), Val::Text("focused".to_string())));
    assert_eq!(t.len(), 1);
    assert!(!t.is_empty());
}

#[test]
fn trace_reenter_at_correct_type() {
    let mut t = Trace::new();
    t.push(step("test", Op::Focus, Val::U32(99), Val::Text("out".to_string())));
    assert_eq!(t.reenter_at(0), Some(&Val::U32(99)));
}

#[test]
fn trace_reenter_wrong_type() {
    let mut t = Trace::new();
    t.push(step("test", Op::Focus, Val::U32(99), Val::Text("out".to_string())));
    assert!(!matches!(t.reenter_at(0), Some(Val::Text(_))));
}

#[test]
fn trace_reenter_out_of_bounds() {
    let t: Trace<Val, f64> = Trace::new();
    assert!(t.reenter_at(0).is_none());
}

#[test]
fn op_variants_are_distinct() {
    assert_ne!(Op::Focus, Op::Project);
    assert_ne!(Op::Project, Op::Settle);
    assert_ne!(Op::Focus, Op::Settle);
}

#[test]
fn steps_returns_slice() {
    let mut t = Trace::new();
    t.push(step("p", Op::Settle, Val::U32(1), Val::U32(2)));
    assert_eq!(t.steps().len(), 1);
    assert_eq!(t.steps()[0].prism, "p");
}

#[test]
fn trace_reenter_string_input() {
    let mut t = Trace::new();
    t.push(step("test", Op::Focus, Val::Text("hello".to_string()), Val::U32(42)));
    assert_eq!(t.reenter_at(0), Some(&Val::Text("hello".to_string())));
}

#[test]
fn trace_keeps_steps_in_order_with_errors() {
    let mut t: Trace<Val, f64> = Default::default();
    t.push(step("a", Op::Focus, Val::U32(1), Val::U32(2)));
    t.push(Step {
        prism: "b",
        op: Op::Project,
        loss: 0.5,
        input: Val::U32(2),
        output: StepOutput::Error(Val::Text("lost".to_string())),
    });
    assert_eq!(t.len(), 2);
    assert_eq!(t.reenter_at(1), Some(&Val::U32(2)));
    assert!(t.reenter_at(2).is_none());
    assert_eq!(t.steps()[1].op, Op::Project);
    assert_eq!(t.steps()[1].loss, 0.5);
    assert!(matches!(t.steps()[1].output, StepOutput::Error(Val::Text(_))));
}
