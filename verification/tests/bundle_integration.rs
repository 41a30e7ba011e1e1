use prismqueer::bundle::{
    Bundle, Closure, Connection, Cyclic, Fiber, Gauge, GroupStructure, IdentityPrism,
    LawvereFixedPoint, StableFiber, Transport,
};

struct Spectral {
    optic: IdentityPrism<[f64; 16]>,
    strategy: Cyclic<16>,
    fixed: StableFiber<[f64; 16]>,
}

impl Fiber for Spectral {
    type State = [f64; 16];
}

impl Connection for Spectral {
    type Optic = IdentityPrism<[f64; 16]>;
    fn connection(&self) -> &IdentityPrism<[f64; 16]> {
        &self.optic
    }
}

fn shift(k: u8, state: &[f64; 16]) -> [f64; 16] {
    let k = k as usize % 16;
    let mut out = [0.0; 16];
    for i in 0..16 {
        out[i] = state[(i + k) % 16];
    }
    out
}

fn upper_half_loss(state: &[f64; 16]) -> u64 {
    let mut loss = 0.0;
    for i in 8..16 {
        loss += state[i].abs();
    }
    loss as u64
}

impl Gauge for Spectral {
    type Group = Cyclic<16>;
    fn acts(&self) -> bool {
        true
    }
    fn spec_act(&self, state: [f64; 16]) -> [f64; 16] {
        shift(self.strategy.value(), &state)
    }
    fn gauge(&self) -> &Cyclic<16> {
        &self.strategy
    }
    fn act_on(&self, state: &[f64; 16]) -> [f64; 16] {
        shift(self.strategy.value(), state)
    }
}

impl Transport for Spectral {
    fn transports(&self, _state: [f64; 16]) -> bool {
        true
    }
    fn spec_holonomy(&self, state: [f64; 16]) -> u64 {
        upper_half_loss(&state)
    }
    fn holonomy(&self, state: &[f64; 16]) -> u64 {
        upper_half_loss(state)
    }
}

impl Closure for Spectral {
    type Fixed = StableFiber<[f64; 16]>;
    fn close(&self) -> &StableFiber<[f64; 16]> {
        &self.fixed
    }
}

fn make_spectral(strategy_shift: u8, kernel: bool) -> Spectral {
    Spectral {
        optic: IdentityPrism::new(),
        strategy: Cyclic::<16>::new(strategy_shift),
        fixed: StableFiber {
            state: [0.0; 16],
            kernel,
        },
    }
}

fn traverse_tower<B: Bundle>(b: &B) -> u64
where
    B::State: Default,
{
    let state = B::State::default();
    b.holonomy(&state)
}

#[test]
fn gauge_act_on_works_outside_crate() {
    let s = make_spectral(1, true);
    let mut state = [0.0f64; 16];
    state[0] = 1.0;
    state[1] = 2.0;
    let acted = s.act_on(&state);
    assert_eq!(acted[15], 1.0);
    assert_eq!(acted[0], 2.0);
}

#[test]
fn closure_fixed_point_in_kernel_outside_crate() {
    let s = make_spectral(0, true);
    assert!(s.close().in_kernel());
}

#[test]
fn group_axioms_outside_crate() {
    let id = Cyclic::<16>::identity();
    let x = Cyclic::<16>::new(7);
    assert_eq!(id.compose(&x), x);
    assert_eq!(x.compose(&id), x);
    assert_eq!(x.compose(&x.inverse()), id);
}

#[test]
fn bundle_from_outside_crate() {
    let s = make_spectral(1, true);
    assert_eq!(traverse_tower(&s), 0);
}

#[test]
fn transport_with_nonzero_state_returns_partial() {
    let s = make_spectral(2, true);
    let mut state = [0.0f64; 16];
    state[10] = 5.0;
    state[15] = 3.0;
    assert_eq!(s.holonomy(&state), 8);
}

#[test]
fn transport_with_zero_upper_returns_success() {
    let s = make_spectral(0, true);
    let mut state = [0.0f64; 16];
    state[0] = 1.0;
    state[7] = 2.0;
    assert_eq!(s.holonomy(&state), 0);
}
