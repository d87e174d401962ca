//! A colour ramp: heights to colours by linear interpolation between stops.

use vstd::prelude::*;
use crate::errors::ConfigError;
use crate::fixed::{greater, lemma_trunc_between, lesser, trunc_div, Fixed};

verus! {

/// A height and the colour at that height, as red, green, blue and alpha.
#[derive(Clone, Copy, Debug)]
pub struct GradientStop {
    pub value: Fixed,
    pub color: [u8; 4],
}

/// Whether the stops come in strictly ascending order of value.
pub open spec fn ascending(stops: Seq<GradientStop>) -> bool {
    forall|i: int, j: int| 0 <= i < j < stops.len() ==> stops[i].value@ < stops[j].value@
}

/// Whether the stops make a gradient: at least two, in strictly ascending
/// order of value.
pub open spec fn well_formed(stops: Seq<GradientStop>) -> bool {
    stops.len() >= 2 && ascending(stops)
}

/// Whether `v` lies between stop `i` and the next, the next excluded.
pub open spec fn brackets(stops: Seq<GradientStop>, i: int, v: int) -> bool {
    0 <= i < stops.len() - 1 && stops[i].value@ <= v < stops[i + 1].value@
}

/// One colour channel at `v`, between the channel `c0` at `v0` and the
/// channel `c1` at `v1`, for `v0 <= v <= v1` and `v0 < v1`.
pub open spec fn channel_between(c0: int, c1: int, v0: int, v1: int, v: int) -> int {
    trunc_div(c0 * (v1 - v) + c1 * (v - v0), v1 - v0)
}

/// The colour at `v` between two stops.
pub open spec fn color_between(lo: GradientStop, hi: GradientStop, v: int) -> Seq<u8> {
    Seq::new(
        4,
        |c: int|
            channel_between(lo.color[c] as int, hi.color[c] as int, lo.value@, hi.value@, v) as u8,
    )
}

/// The colour of a gradient at `v`: that of the first stop below its value,
/// that of the last stop at and above its value, and in between the blend
/// of the two stops around `v`.
pub open spec fn gradient_color(stops: Seq<GradientStop>, v: int) -> Seq<u8> {
    if v < stops.first().value@ {
        stops.first().color@
    } else if v >= stops.last().value@ {
        stops.last().color@
    } else {
        let i = choose|i: int| brackets(stops, i, v);
        color_between(stops[i], stops[i + 1], v)
    }
}

/// A blended channel lies between the two channels it blends, and equals
/// each at its own stop.
pub proof fn lemma_channel_between(c0: int, c1: int, v0: int, v1: int, v: int)
    requires
        v0 <= v <= v1,
        v0 < v1,
    ensures
        lesser(c0, c1) <= channel_between(c0, c1, v0, v1, v) <= greater(c0, c1),
        v == v0 ==> channel_between(c0, c1, v0, v1, v) == c0,
        v == v1 ==> channel_between(c0, c1, v0, v1, v) == c1,
{
    let s = v1 - v0;
    let w = c0 * (v1 - v) + c1 * (v - v0);
    let lo = lesser(c0, c1);
    let hi = greater(c0, c1);
    assert(lo * s <= w <= hi * s) by (nonlinear_arith)
        requires
            w == c0 * (v1 - v) + c1 * (v - v0),
            s == v1 - v0,
            v0 <= v <= v1,
            lo <= c0 <= hi,
            lo <= c1 <= hi,
    ;
    lemma_trunc_between(w, s, lo, hi);
    if v == v0 {
        assert(w == c0 * s) by (nonlinear_arith)
            requires
                w == c0 * (v1 - v) + c1 * (v - v0),
                s == v1 - v0,
                v == v0,
        ;
        lemma_trunc_between(w, s, c0, c0);
    }
    if v == v1 {
        assert(w == c1 * s) by (nonlinear_arith)
            requires
                w == c0 * (v1 - v) + c1 * (v - v0),
                s == v1 - v0,
                v == v1,
        ;
        lemma_trunc_between(w, s, c1, c1);
    }
}

/// At most one pair of neighbouring stops brackets a value.
pub proof fn lemma_bracket_unique(stops: Seq<GradientStop>, i: int, j: int, v: int)
    requires
        ascending(stops),
        brackets(stops, i, v),
        brackets(stops, j, v),
    ensures
        i == j,
{
    if i < j {
        assert(stops[i + 1].value@ <= stops[j].value@);
    }
    if j < i {
        assert(stops[j + 1].value@ <= stops[i].value@);
    }
}

/// An ordered sequence of stops that defines a piecewise-linear colour
/// ramp. It holds at least two stops, in strictly ascending order of value.
#[derive(Debug)]
pub struct Gradient {
    stops: Vec<GradientStop>,
}

impl View for Gradient {
    type V = Seq<GradientStop>;

    closed spec fn view(&self) -> Seq<GradientStop> {
        self.stops@
    }
}

impl Gradient {
    #[verifier::type_invariant]
    spec fn stops_well_formed(self) -> bool {
        well_formed(self.stops@)
    }

    /// The gradient of the given stops. Fewer than two stops, and stops out
    /// of strictly ascending order, are rejected; nothing is reordered.
    pub fn new(stops: Vec<GradientStop>) -> (r: Result<Gradient, ConfigError>)
        ensures
            match r {
                Ok(g) => well_formed(stops@) && g@ == stops@,
                Err(ConfigError::TooFewStops) => stops@.len() < 2,
                Err(ConfigError::UnsortedStops) => stops@.len() >= 2 && !ascending(stops@),
                Err(_) => false,
            },
    {
        if stops.len() < 2 {
            return Err(ConfigError::TooFewStops);
        }
        let mut i: usize = 1;
        while i < stops.len()
            invariant
                1 <= i <= stops.len(),
                forall|a: int, b: int| 0 <= a < b < i ==> stops@[a].value@ < stops@[b].value@,
            decreases stops.len() - i,
        {
            if stops[i - 1].value.raw >= stops[i].value.raw {
                return Err(ConfigError::UnsortedStops);
            }
            assert forall|a: int, b: int| 0 <= a < b < i + 1 implies stops@[a].value@
                < stops@[b].value@ by {
                if b == i && a < i - 1 {
                    assert(stops@[a].value@ < stops@[i - 1].value@);
                }
            }
            i += 1;
        }
        Ok(Gradient { stops })
    }

    /// Number of stops.
    pub fn len(&self) -> (n: usize)
        ensures
            n == self@.len(),
            n >= 2,
    {
        proof {
            use_type_invariant(self);
        }
        self.stops.len()
    }

    /// The `i`-th stop, if there are that many.
    pub fn stop(&self, i: usize) -> (s: Option<GradientStop>)
        ensures
            s is Some <==> i < self@.len(),
            s matches Some(found) ==> found == self@[i as int],
    {
        if i < self.stops.len() {
            Some(self.stops[i])
        } else {
            None
        }
    }

    /// The colour at the height `value`.
    pub fn map_color(&self, value: Fixed) -> (color: [u8; 4])
        ensures
            color@ == gradient_color(self@, value@),
            well_formed(self@),
            forall|i: int| #[trigger]
                brackets(self@, i, value@) ==> color@ == color_between(
                    self@[i],
                    self@[i + 1],
                    value@,
                ),
    {
        proof {
            use_type_invariant(self);
            assert forall|i: int| #[trigger] brackets(self@, i, value@) implies gradient_color(
                self@,
                value@,
            ) == color_between(self@[i], self@[i + 1], value@) by {
                let chosen = choose|k: int| brackets(self@, k, value@);
                lemma_bracket_unique(self@, i, chosen, value@);
                assert(self@.first().value@ <= self@[i].value@);
                assert(self@[i + 1].value@ <= self@.last().value@);
            }
        }
        let n = self.stops.len();
        if value.raw < self.stops[0].value.raw {
            return self.stops[0].color;
        }
        if value.raw >= self.stops[n - 1].value.raw {
            return self.stops[n - 1].color;
        }
        let mut i: usize = 0;
        while value.raw >= self.stops[i + 1].value.raw
            invariant
                n == self.stops@.len(),
                well_formed(self.stops@),
                i < n - 1,
                self.stops@[i as int].value@ <= value@ < self.stops@[n - 1].value@,
            decreases n - i,
        {
            i += 1;
        }
        proof {
            let chosen = choose|k: int| brackets(self@, k, value@);
            assert(brackets(self@, i as int, value@));
            lemma_bracket_unique(self@, i as int, chosen, value@);
        }
        blend(&self.stops[i], &self.stops[i + 1], value)
    }
}

/// One channel of the colour at `v` between two stops.
fn blend_channel(c0: u8, c1: u8, v0: Fixed, v1: Fixed, v: Fixed) -> (c: u8)
    requires
        v0@ <= v@ <= v1@,
        v0@ < v1@,
    ensures
        c == channel_between(c0 as int, c1 as int, v0@, v1@, v@),
{
    proof {
        lemma_channel_between(c0 as int, c1 as int, v0@, v1@, v@);
    }
    let span: i128 = v1.raw as i128 - v0.raw as i128;
    let above: i128 = v1.raw as i128 - v.raw as i128;
    let below: i128 = v.raw as i128 - v0.raw as i128;
    assert(0 <= c0 * above <= 255 * 0x1_0000_0000_0000_0000 && 0 <= c1 * below <= 255
        * 0x1_0000_0000_0000_0000) by (nonlinear_arith)
        requires
            0 <= c0 <= 255,
            0 <= c1 <= 255,
            0 <= above <= 0x1_0000_0000_0000_0000,
            0 <= below <= 0x1_0000_0000_0000_0000,
    ;
    let weighted: i128 = (c0 as i128) * above + (c1 as i128) * below;
    (weighted / span) as u8
}

/// The colour at `v` between two stops.
fn blend(lo: &GradientStop, hi: &GradientStop, v: Fixed) -> (color: [u8; 4])
    requires
        lo.value@ <= v@ <= hi.value@,
        lo.value@ < hi.value@,
    ensures
        color@ == color_between(*lo, *hi, v@),
{
    let color = [
        blend_channel(lo.color[0], hi.color[0], lo.value, hi.value, v),
        blend_channel(lo.color[1], hi.color[1], lo.value, hi.value, v),
        blend_channel(lo.color[2], hi.color[2], lo.value, hi.value, v),
        blend_channel(lo.color[3], hi.color[3], lo.value, hi.value, v),
    ];
    assert(color@ =~= color_between(*lo, *hi, v@));
    color
}

/// The colour of a gradient at the height `value`.
pub fn map_color(gradient: &Gradient, value: Fixed) -> (color: [u8; 4])
    ensures
        color@ == gradient_color(gradient@, value@),
        forall|i: int| #[trigger]
            brackets(gradient@, i, value@) ==> color@ == color_between(
                gradient@[i],
                gradient@[i + 1],
                value@,
            ),
{
    gradient.map_color(value)
}

/// At the value of a stop a gradient has the colour of that stop.
pub proof fn law_gradient_hits_stops(stops: Seq<GradientStop>, i: int)
    requires
        well_formed(stops),
        0 <= i < stops.len(),
    ensures
        gradient_color(stops, stops[i].value@) == stops[i].color@,
{
    let v = stops[i].value@;
    assert(stops.first().value@ <= v <= stops.last().value@);
    if i < stops.len() - 1 {
        assert(v < stops.last().value@);
        assert(brackets(stops, i, v));
        let chosen = choose|k: int| brackets(stops, k, v);
        lemma_bracket_unique(stops, i, chosen, v);
        assert forall|c: int| 0 <= c < 4 implies color_between(stops[i], stops[i + 1], v)[c]
            == stops[i].color@[c] by {
            lemma_channel_between(
                stops[i].color[c] as int,
                stops[i + 1].color[c] as int,
                v,
                stops[i + 1].value@,
                v,
            );
        }
        assert(color_between(stops[i], stops[i + 1], v) =~= stops[i].color@);
    }
}

/// At and below the value of the first stop a gradient has the colour of
/// the first stop.
pub proof fn law_gradient_clamps_below(stops: Seq<GradientStop>, v: int)
    requires
        well_formed(stops),
        v <= stops.first().value@,
    ensures
        gradient_color(stops, v) == stops.first().color@,
{
    if v == stops.first().value@ {
        law_gradient_hits_stops(stops, 0);
    }
}

/// At and above the value of the last stop a gradient has the colour of the
/// last stop.
pub proof fn law_gradient_clamps_above(stops: Seq<GradientStop>, v: int)
    requires
        well_formed(stops),
        v >= stops.last().value@,
    ensures
        gradient_color(stops, v) == stops.last().color@,
{
    assert(stops.first().value@ < stops.last().value@);
}

} // verus!
