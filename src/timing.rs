use vstd::prelude::*;

verus! {

/// A rational number `num / den`, as a container expresses time bases and
/// frame rates.
#[derive(Clone, Copy, Debug, PartialEq, Eq, Structural)]
pub struct Rational {
    pub num: i32,
    pub den: i32,
}

impl Rational {
    /// Both parts are positive: the rational is a usable rate or time base.
    pub open spec fn is_positive(self) -> bool {
        self.num > 0 && self.den > 0
    }

    pub fn new(num: i32, den: i32) -> (r: Rational)
        ensures
            r.num == num,
            r.den == den,
    {
        Rational { num, den }
    }
}

/// The frame that a slider position maps to: the position is clamped to
/// `[0, duration]`, scaled onto `[0, nframes - 1/2]` and rounded half up.
/// A zero duration maps everything to the first frame.
pub open spec fn seek_index(position: nat, duration: nat, nframes: nat) -> nat {
    if duration == 0 {
        0
    } else {
        let p = if position <= duration { position } else { duration };
        let num: int = p * (2 * nframes - 1) + duration;
        let r = (num / (2 * duration as int)) as nat;
        if r < nframes { r } else { (nframes - 1) as nat }
    }
}

proof fn lemma_split_quotient(q: int, d: int, x: int)
    requires
        d > 0,
    ensures
        (2 * d * q + x) / (2 * d) == q + x / (2 * d),
{
    let m = 2 * d;
    vstd::arithmetic::div_mod::lemma_fundamental_div_mod(x, m);
    vstd::arithmetic::div_mod::lemma_mod_bound(x, m);
    assert(2 * d * q + x == (q + x / m) * m + x % m) by (nonlinear_arith)
        requires
            m == 2 * d,
            x == m * (x / m) + x % m,
    ;
    vstd::arithmetic::div_mod::lemma_fundamental_div_mod_converse(2 * d * q + x, m, q + x / m, x % m);
}

/// Moves `current_frame` to the frame at `position` on a timeline of length
/// `duration` (both in one time unit) holding `nframes` frames; with no
/// frames it is left as it is.
pub fn seek_in_frames(current_frame: &mut usize, position: u64, duration: u64, nframes: usize)
    ensures
        nframes == 0 ==> *final(current_frame) == *old(current_frame),
        nframes > 0 ==> *final(current_frame) == seek_index(
            position as nat,
            duration as nat,
            nframes as nat,
        ),
{
    if nframes == 0 {
        return ;
    }
    if duration == 0 {
        *current_frame = 0;
        return ;
    }
    let p: u64 = if position <= duration { position } else { duration };
    let d: u128 = duration as u128;
    let n: u128 = nframes as u128;
    assert((p as int) * (n as int) <= (u64::MAX as int) * (u64::MAX as int)) by (nonlinear_arith)
        requires p as int <= u64::MAX, n as int <= u64::MAX;
    let a: u128 = (p as u128) * n;
    let qa: u128 = a / d;
    let ra: u128 = a % d;
    let extra: u128 = (2 * ra + d - p as u128) / (2 * d);
    proof {
        let pi = p as int;
        let ni = n as int;
        let di = d as int;
        vstd::arithmetic::div_mod::lemma_fundamental_div_mod(a as int, di);
        assert(pi * (2 * ni - 1) + di == 2 * di * (qa as int) + (2 * (ra as int) + di - pi))
            by (nonlinear_arith)
            requires
                a as int == pi * ni,
                a as int == di * (qa as int) + (ra as int),
        ;
        lemma_split_quotient(qa as int, di, 2 * (ra as int) + di - pi);
        assert(pi * ni <= di * ni) by (nonlinear_arith)
            requires
                pi <= di,
                0 <= ni,
        ;
        vstd::arithmetic::mul::lemma_mul_inequality_converse(qa as int, ni, di);
        assert(qa as int <= ni);
    }
    let r: u128 = qa + extra;
    if r < n {
        *current_frame = r as usize;
    } else {
        *current_frame = nframes - 1;
    }
}

/// The slider mapping never moves backwards as the position grows, always
/// lands on an existing frame, sends the start of the timeline to the first
/// frame and its end to the last.
pub proof fn lemma_seek_index_law(p1: nat, p2: nat, duration: nat, nframes: nat)
    requires
        nframes > 0,
    ensures
        p1 <= p2 ==> seek_index(p1, duration, nframes) <= seek_index(p2, duration, nframes),
        seek_index(p1, duration, nframes) <= nframes - 1,
        seek_index(0, duration, nframes) == 0,
        duration > 0 ==> seek_index(duration, duration, nframes) == nframes - 1,
{
    if duration > 0 && p1 <= p2 {
        let c1: int = if p1 <= duration { p1 as int } else { duration as int };
        let c2: int = if p2 <= duration { p2 as int } else { duration as int };
        let m: int = 2 * nframes - 1;
        assert(c1 * m <= c2 * m) by (nonlinear_arith)
            requires
                c1 <= c2,
                m >= 0,
        ;
        vstd::arithmetic::div_mod::lemma_div_is_ordered(
            c1 * m + duration,
            c2 * m + duration,
            2 * duration as int,
        );
    }
    if duration > 0 {
        vstd::arithmetic::div_mod::lemma_basic_div(duration as int, 2 * duration as int);
        assert(duration * (2 * nframes - 1) + duration == 2 * duration * nframes) by (nonlinear_arith);
        vstd::arithmetic::div_mod::lemma_div_multiples_vanish(nframes as int, 2 * duration as int);
    }
}

} // verus!
