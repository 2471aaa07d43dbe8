use vstd::arithmetic::div_mod::lemma_div_multiples_vanish_quotient;
use vstd::prelude::*;

verus! {

/// A scale factor held exactly, as the fraction `num / den` with `den > 0`.
#[derive(Clone, Copy, Debug)]
pub struct Scale {
    pub(crate) num: u32,
    pub(crate) den: u32,
}

impl Scale {
    #[verifier::type_invariant]
    spec fn well_formed(self) -> bool {
        self.den > 0
    }

    /// The numerator of the fraction.
    pub open(crate) spec fn numer(self) -> int {
        self.num as int
    }

    /// The denominator of the fraction.
    pub open(crate) spec fn denom(self) -> int {
        self.den as int
    }

    /// The scale `num / den`; there is none with a zero denominator.
    pub fn new(num: u32, den: u32) -> (r: Option<Scale>)
        ensures
            r is Some <==> den > 0,
            r matches Some(s) ==> s.numer() == num && s.denom() == den,
    {
        if den == 0 {
            None
        } else {
            Some(Scale { num, den })
        }
    }

    /// The scale written in decimal, such as `2`, `0.5` or `1.25`, held
    /// exactly: the digits over a power of ten. There is none where the text
    /// is no such number or either part exceeds `u32`.
    pub fn from_decimal(text: &str) -> (r: Option<Scale>)
        ensures
            r matches Some(sc) ==> is_decimal(text@) && sc.numer() == digits_value(text@)
                && sc.denom() == pow10(fraction_digits(text@)),
            is_decimal(text@) && digits_value(text@) <= u32::MAX && pow10(fraction_digits(text@))
                <= u32::MAX ==> r is Some,
    {
        let n = text.unicode_len();
        let ghost s = text@;
        let mut num: u64 = 0;
        let mut den: u64 = 1;
        let mut seen_dot = false;
        let mut seen_digit = false;
        let mut i: usize = 0;
        assert(s.take(0) =~= Seq::<char>::empty());
        while i < n
            invariant
                n == s.len(),
                s == text@,
                i <= n,
                num <= u32::MAX,
                1 <= den <= u32::MAX,
                num == digits_value(s.take(i as int)),
                den == pow10(fraction_digits(s.take(i as int))),
                seen_dot <==> exists|k: int| 0 <= k < i && #[trigger] s[k] == '.',
                seen_digit <==> exists|k: int| 0 <= k < i && #[trigger] s[k] != '.',
                forall|k: int| 0 <= k < i ==> ('0' <= #[trigger] s[k] <= '9' || s[k] == '.'),
                forall|k: int, l: int| 0 <= k < l < i && #[trigger] s[k] == '.' ==> #[trigger] s[l] != '.',
            decreases n - i,
        {
            let c = text.get_char(i);
            let ghost t = s.take(i + 1);
            assert(t.drop_last() =~= s.take(i as int));
            assert(t.last() == c);
            assert forall|k: int| 0 <= k < t.len() implies #[trigger] t[k] == s[k] by {}
            if c == '.' {
                if seen_dot {
                    proof {
                        let k = choose|k: int| 0 <= k < i && #[trigger] s[k] == '.';
                        assert(s[k] == '.' && s[i as int] == '.');
                    }
                    return None;
                }
                proof {
                    let u = s.take(i as int);
                    assert forall|k: int| 0 <= k < u.len() implies #[trigger] u[k] != '.' by {
                        assert(u[k] == s[k]);
                    }
                    if u.len() > 0 {
                        assert(u.last() != '.');
                    }
                    assert(fraction_digits(u) == 0);
                }
                seen_dot = true;
                assert(t[i as int] == '.');
            } else if '0' <= c && c <= '9' {
                let next = num * 10 + (c as u64 - '0' as u64);
                if next > u32::MAX as u64 {
                    proof {
                        if is_decimal(s) {
                            lemma_digits_value_grows(s, i + 1, n as int);
                            assert(s.take(n as int) =~= s);
                        }
                    }
                    return None;
                }
                if seen_dot {
                    if den * 10 > u32::MAX as u64 {
                        proof {
                            assert(fraction_digits(t) == fraction_digits(s.take(i as int)) + 1);
                            if is_decimal(s) {
                                lemma_fraction_grows(s, i + 1, n as int);
                                lemma_pow10_grows(fraction_digits(t), fraction_digits(s.take(n as int)));
                                assert(s.take(n as int) =~= s);
                            }
                        }
                        return None;
                    }
                    den = den * 10;
                }
                proof {
                    if seen_dot {
                        let k = choose|k: int| 0 <= k < i && #[trigger] s[k] == '.';
                        assert(t[k] == '.');
                        assert(fraction_digits(t) == fraction_digits(s.take(i as int)) + 1);
                    } else {
                        assert forall|k: int| 0 <= k < t.len() implies #[trigger] t[k] != '.' by {}
                        assert(fraction_digits(t) == 0);
                        let u = s.take(i as int);
                        assert forall|k: int| 0 <= k < u.len() implies #[trigger] u[k] != '.' by {
                            assert(u[k] == s[k]);
                        }
                        if u.len() > 0 {
                            assert(u.last() != '.');
                        }
                        assert(fraction_digits(u) == 0);
                    }
                }
                num = next;
                seen_digit = true;
                assert(t[i as int] != '.');
            } else {
                proof {
                    assert(!('0' <= s[i as int] <= '9' || s[i as int] == '.'));
                }
                return None;
            }
            i = i + 1;
        }
        assert(s.take(n as int) =~= s);
        if !seen_digit {
            return None;
        }
        Some(Scale { num: num as u32, den: den as u32 })
    }

    pub fn numerator(&self) -> (r: u32)
        ensures
            r == self.numer(),
    {
        self.num
    }

    pub fn denominator(&self) -> (r: u32)
        ensures
            r == self.denom(),
            r > 0,
    {
        proof {
            use_type_invariant(self);
        }
        self.den
    }
}

/// The digits of `s`, `.` skipped, read as one decimal integer.
pub open spec fn digits_value(s: Seq<char>) -> int
    decreases s.len(),
{
    if s.len() == 0 {
        0
    } else if s.last() == '.' {
        digits_value(s.drop_last())
    } else {
        digits_value(s.drop_last()) * 10 + (s.last() as int - '0' as int)
    }
}

pub open spec fn pow10(n: nat) -> int
    decreases n,
{
    if n == 0 {
        1
    } else {
        10 * pow10((n - 1) as nat)
    }
}

/// `s` is digits with at most one `.` among them, and at least one digit.
pub open spec fn is_decimal(s: Seq<char>) -> bool {
    &&& forall|i: int| 0 <= i < s.len() ==> ('0' <= #[trigger] s[i] <= '9' || s[i] == '.')
    &&& forall|i: int, j: int| 0 <= i < j < s.len() && #[trigger] s[i] == '.' ==> #[trigger] s[j] != '.'
    &&& exists|i: int| 0 <= i < s.len() && #[trigger] s[i] != '.'
}

/// The number of digits after the `.`, if any.
pub open spec fn fraction_digits(s: Seq<char>) -> nat
    decreases s.len(),
{
    if s.len() == 0 {
        0
    } else if s.last() == '.' {
        0
    } else if exists|i: int| 0 <= i < s.len() && #[trigger] s[i] == '.' {
        fraction_digits(s.drop_last()) + 1
    } else {
        0
    }
}

proof fn lemma_digits_value_grows(s: Seq<char>, i: int, j: int)
    requires
        0 <= i <= j <= s.len(),
        forall|k: int| 0 <= k < s.len() ==> ('0' <= #[trigger] s[k] <= '9' || s[k] == '.'),
    ensures
        0 <= digits_value(s.take(i)) <= digits_value(s.take(j)),
    decreases j - i,
{
    if i < j {
        lemma_digits_value_grows(s, i, j - 1);
        assert(s.take(j).drop_last() =~= s.take(j - 1));
        assert(s.take(j).last() == s[j - 1]);
    } else {
        lemma_digits_value_nonneg(s, i);
    }
}

proof fn lemma_fraction_grows(s: Seq<char>, i: int, j: int)
    requires
        0 <= i <= j <= s.len(),
        is_decimal(s),
    ensures
        fraction_digits(s.take(i)) <= fraction_digits(s.take(j)),
    decreases j - i,
{
    if i < j {
        lemma_fraction_grows(s, i, j - 1);
        let t = s.take(j);
        let u = s.take(j - 1);
        assert(t.drop_last() =~= u);
        assert(t.last() == s[j - 1]);
        if t.last() == '.' {
            assert forall|k: int| 0 <= k < u.len() implies #[trigger] u[k] != '.' by {
                assert(u[k] == s[k]);
            }
            if u.len() > 0 {
                assert(u.last() != '.');
            }
            assert(fraction_digits(u) == 0);
        } else if !(exists|k: int| 0 <= k < t.len() && #[trigger] t[k] == '.') {
            assert forall|k: int| 0 <= k < u.len() implies #[trigger] u[k] != '.' by {
                assert(u[k] == t[k]);
            }
            if u.len() > 0 {
                assert(u.last() != '.');
            }
            assert(fraction_digits(u) == 0);
        }
    }
}

proof fn lemma_pow10_grows(a: nat, b: nat)
    requires
        a <= b,
    ensures
        1 <= pow10(a) <= pow10(b),
    decreases b,
{
    if a < b {
        lemma_pow10_grows(a, (b - 1) as nat);
    } else if a > 0 {
        lemma_pow10_grows((a - 1) as nat, (a - 1) as nat);
    }
}

proof fn lemma_digits_value_nonneg(s: Seq<char>, i: int)
    requires
        0 <= i <= s.len(),
        forall|k: int| 0 <= k < s.len() ==> ('0' <= #[trigger] s[k] <= '9' || s[k] == '.'),
    ensures
        0 <= digits_value(s.take(i)),
    decreases i,
{
    if i > 0 {
        lemma_digits_value_nonneg(s, i - 1);
        assert(s.take(i).drop_last() =~= s.take(i - 1));
        assert(s.take(i).last() == s[i - 1]);
    }
}

/// A pending change of geometry; a field left `None` sets no constraint.
#[derive(Clone, Copy, Debug)]
pub struct Resize {
    pub width: Option<u32>,
    pub height: Option<u32>,
    pub max_width: Option<u32>,
    pub max_height: Option<u32>,
    pub scale: Option<Scale>,
}

/// The resize that sets no field.
pub open spec fn unconstrained() -> Resize {
    Resize { width: None, height: None, max_width: None, max_height: None, scale: None }
}

impl Default for Resize {
    fn default() -> (r: Resize)
        ensures
            r == unconstrained(),
    {
        Resize { width: None, height: None, max_width: None, max_height: None, scale: None }
    }
}

/// The running size is kept as `(extent * num / den)` on each axis: the scale
/// and both clamps change the two axes by one common factor `num / den`.
/// This is the factor after the scale.
pub open spec fn scaled_factor(r: Resize) -> (int, int) {
    match r.scale {
        Some(s) => (s.numer(), s.denom()),
        None => (1, 1),
    }
}

/// One clamp: where the running extent `extent * f.0 / f.1` exceeds `max`,
/// both axes shrink by the same ratio and this extent becomes `max`, which is
/// the factor `max / extent`. A running extent within `max` is left alone.
pub open spec fn clamp_factor(f: (int, int), extent: int, max: Option<u32>) -> (int, int) {
    match max {
        Some(m) => if extent * f.0 > m * f.1 {
            (m as int, extent)
        } else {
            f
        },
        None => f,
    }
}

/// The common factor after the scale, the `max_width` clamp and then the
/// `max_height` clamp, in that order.
pub open spec fn running_factor(r: Resize, w: int, h: int) -> (int, int) {
    clamp_factor(clamp_factor(scaled_factor(r), w, r.max_width), h, r.max_height)
}

/// The output size, truncated towards zero.
///
/// Both targets set: they win outright. Width alone: the height follows the
/// running aspect ratio (running height times target over running width).
/// Height alone: the width is the running width times the target over the
/// input height. Neither: the running size. Where the ratio would divide by
/// zero, the running size of that axis is kept.
pub open spec fn spec_dimensions(r: Resize, w: int, h: int) -> (int, int) {
    let (n, d) = running_factor(r, w, h);
    match (r.width, r.height) {
        (Some(tw), Some(th)) => (tw as int, th as int),
        (Some(tw), None) => if w * n == 0 {
            (tw as int, (h * n) / d)
        } else {
            (tw as int, (h * n * tw) / (w * n))
        },
        (None, Some(th)) => if h == 0 {
            ((w * n) / d, th as int)
        } else {
            ((w * n * th) / (d * h), th as int)
        },
        (None, None) => ((w * n) / d, (h * n) / d),
    }
}

/// `x`, saturated to the range of `u32`.
pub open spec fn saturate(x: int) -> int {
    if x > u32::MAX {
        u32::MAX as int
    } else {
        x
    }
}

proof fn lemma_clamp_bounds(f: (int, int), extent: u32, max: Option<u32>)
    requires
        0 <= f.0 <= u32::MAX,
        0 < f.1 <= u32::MAX,
    ensures
        0 <= clamp_factor(f, extent as int, max).0 <= u32::MAX,
        0 < clamp_factor(f, extent as int, max).1 <= u32::MAX,
{
    if let Some(m) = max {
        if extent * f.0 > m * f.1 {
            assert(m * f.1 >= 0) by (nonlinear_arith)
                requires
                    m >= 0,
                    f.1 > 0,
            ;
            assert(extent > 0) by (nonlinear_arith)
                requires
                    extent * f.0 > 0,
                    extent >= 0,
                    f.0 >= 0,
            ;
        }
    }
}

proof fn lemma_factor_bounds(r: Resize, w: u32, h: u32)
    requires
        r.scale matches Some(s) ==> s.denom() > 0,
    ensures
        ({
            let (n, d) = running_factor(r, w as int, h as int);
            0 <= n <= u32::MAX && 0 < d <= u32::MAX
        }),
{
    let f0 = scaled_factor(r);
    lemma_clamp_bounds(f0, w, r.max_width);
    lemma_clamp_bounds(clamp_factor(f0, w as int, r.max_width), h, r.max_height);
}

impl Resize {
    /// The size that this resize gives an image of `current_width` by
    /// `current_height` pixels.
    pub fn calculate_dimensions(&self, current_width: u32, current_height: u32) -> (r: (u32, u32))
        ensures
            r.0 == saturate(spec_dimensions(*self, current_width as int, current_height as int).0),
            r.1 == saturate(spec_dimensions(*self, current_width as int, current_height as int).1),
    {
        let w = current_width as u64;
        let h = current_height as u64;
        let mut n: u64 = 1;
        let mut d: u64 = 1;
        if let Some(s) = self.scale {
            n = s.numerator() as u64;
            d = s.denominator() as u64;
        }
        proof {
            if let Some(s) = self.scale {
                use_type_invariant(s);
            }
            lemma_factor_bounds(*self, current_width, current_height);
        }
        assert(n <= u32::MAX && 0 < d <= u32::MAX);
        if let Some(m) = self.max_width {
            assert(w * n <= u32::MAX * u32::MAX && m * d <= u32::MAX * u32::MAX) by (nonlinear_arith)
                requires
                    w <= u32::MAX,
                    n <= u32::MAX,
                    m <= u32::MAX,
                    d <= u32::MAX,
            ;
            if w * n > m as u64 * d {
                n = m as u64;
                d = w;
            }
        }
        assert(n <= u32::MAX && 0 < d <= u32::MAX);
        if let Some(m) = self.max_height {
            assert(h * n <= u32::MAX * u32::MAX && m * d <= u32::MAX * u32::MAX) by (nonlinear_arith)
                requires
                    h <= u32::MAX,
                    n <= u32::MAX,
                    m <= u32::MAX,
                    d <= u32::MAX,
            ;
            if h * n > m as u64 * d {
                n = m as u64;
                d = h;
            }
        }
        assert((n as int, d as int) == running_factor(*self, w as int, h as int));
        assert(w * n <= u32::MAX * u32::MAX && h * n <= u32::MAX * u32::MAX) by (nonlinear_arith)
            requires
                w <= u32::MAX,
                h <= u32::MAX,
                n <= u32::MAX,
        ;
        let (rw, rh): (u64, u64) = match (self.width, self.height) {
            (Some(tw), Some(th)) => (tw as u64, th as u64),
            (Some(tw), None) => {
                if w * n == 0 {
                    (tw as u64, h * n / d)
                } else {
                    assert(h * tw <= u32::MAX * u32::MAX) by (nonlinear_arith)
                        requires
                            h <= u32::MAX,
                            tw <= u32::MAX,
                    ;
                    proof {
                        assert(w > 0 && n > 0) by (nonlinear_arith)
                            requires
                                w * n != 0,
                                w >= 0,
                                n >= 0,
                        ;
                        lemma_div_multiples_vanish_quotient(n as int, (h * tw) as int, w as int);
                        assert((h * n * tw) == n * (h * tw)) by (nonlinear_arith);
                        assert((w * n) == n * w) by (nonlinear_arith);
                    }
                    (tw as u64, h * (tw as u64) / w)
                }
            },
            (None, Some(th)) => {
                if h == 0 {
                    (w * n / d, th as u64)
                } else {
                    assert(w * n * th <= u32::MAX * u32::MAX * u32::MAX && 0 < d * h <= u32::MAX
                        * u32::MAX) by (nonlinear_arith)
                        requires
                            d > 0,
                            h > 0,
                            w <= u32::MAX,
                            h <= u32::MAX,
                            n <= u32::MAX,
                            d <= u32::MAX,
                            th <= u32::MAX,
                            w * n <= u32::MAX * u32::MAX,
                    ;
                    let big = (w as u128) * (n as u128) * (th as u128) / ((d as u128) * (h as u128));
                    assert(big <= w * n * th) by (nonlinear_arith)
                        requires
                            big == (w * n * th) / (d * h),
                            d > 0,
                            h > 0,
                            w * n * th >= 0,
                    ;
                    let cut: u64 = if big > u32::MAX as u128 {
                        u32::MAX as u64
                    } else {
                        big as u64
                    };
                    (cut, th as u64)
                }
            },
            (None, None) => (w * n / d, h * n / d),
        };
        let ow: u32 = if rw > u32::MAX as u64 {
            u32::MAX
        } else {
            rw as u32
        };
        let oh: u32 = if rh > u32::MAX as u64 {
            u32::MAX
        } else {
            rh as u32
        };
        (ow, oh)
    }
}

/// With no field set, a resize keeps every size.
pub proof fn lemma_unconstrained_is_identity(w: u32, h: u32)
    ensures
        spec_dimensions(unconstrained(), w as int, h as int) == (w as int, h as int),
{
    assert((w as int * 1) / 1 == w as int);
    assert((h as int * 1) / 1 == h as int);
}

/// With both `width` and `height` set, the output is exactly that pair,
/// whatever the scale and the maxima.
pub proof fn lemma_exact_targets_win(r: Resize, w: u32, h: u32)
    requires
        r.width is Some,
        r.height is Some,
    ensures
        spec_dimensions(r, w as int, h as int) == (r.width->0 as int, r.height->0 as int),
{
}

/// A `max_width` that the scaled width does not exceed changes nothing: the
/// clamp never scales up to reach its maximum.
pub proof fn lemma_max_width_never_upscales(r: Resize, w: u32, h: u32)
    requires
        r.max_width is Some,
        w * scaled_factor(r).0 <= r.max_width->0 * scaled_factor(r).1,
    ensures
        spec_dimensions(r, w as int, h as int) == spec_dimensions(
            Resize { max_width: None, ..r },
            w as int,
            h as int,
        ),
{
}

/// With only a scale and a `max_width` that the scaled width does not exceed,
/// the output is the scaled size, truncated; its width is within `u32`, so
/// `calculate_dimensions` returns that width exactly.
pub proof fn lemma_max_width_keeps_scaled_size(r: Resize, w: u32, h: u32)
    requires
        r.max_width is Some,
        r.max_height is None,
        r.width is None,
        r.height is None,
        w * scaled_factor(r).0 <= r.max_width->0 * scaled_factor(r).1,
        r.scale matches Some(s) ==> s.denom() > 0,
    ensures
        spec_dimensions(r, w as int, h as int) == (
            (w * scaled_factor(r).0) / scaled_factor(r).1,
            (h * scaled_factor(r).0) / scaled_factor(r).1,
        ),
        saturate(spec_dimensions(r, w as int, h as int).0) == spec_dimensions(
            r,
            w as int,
            h as int,
        ).0,
{
    let (n, d) = scaled_factor(r);
    let m = r.max_width->0;
    assert((w * n) / d <= m) by (nonlinear_arith)
        requires
            w * n <= m * d,
            d > 0,
            m >= 0,
            w * n >= 0,
    ;
}

/// A `max_height` that the height after the `max_width` clamp does not exceed
/// changes nothing.
pub proof fn lemma_max_height_never_upscales(r: Resize, w: u32, h: u32)
    requires
        r.max_height is Some,
        ({
            let f = clamp_factor(scaled_factor(r), w as int, r.max_width);
            h * f.0 <= r.max_height->0 * f.1
        }),
    ensures
        spec_dimensions(r, w as int, h as int) == spec_dimensions(
            Resize { max_height: None, ..r },
            w as int,
            h as int,
        ),
{
}

} // verus!
