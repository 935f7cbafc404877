//! One-dimensional color gradients: stops spread over a number of steps,
//! the stops kept exactly and the colors between them mixed.

use vstd::prelude::*;
use crate::color::{law_hex_round_trip, spec_color_rgba, spec_hex_rgb, Color};
use crate::strings::to_owned_string;

verus! {

/// An exact copy of a color.
pub fn copy_color(c: &Color) -> (r: Color)
    ensures
        r.0@ == c.0@,
{
    Color(to_owned_string(c.0.as_str()))
}

/// A color made opaque: one with zero alpha becomes `#rrggbb` of its
/// channels; any other is copied.
pub fn ensure_not_transparent_color(color: &Color) -> (r: Color)
    ensures
        spec_color_rgba(color.0@).3 == 0 ==> r.0@ == spec_hex_rgb(
            spec_color_rgba(color.0@).0 as u8,
            spec_color_rgba(color.0@).1 as u8,
            spec_color_rgba(color.0@).2 as u8,
        ),
        spec_color_rgba(color.0@).3 != 0 ==> r.0@ == color.0@,
{
    let (r, g, b, a) = color.rgba();
    if a == 0 {
        Color::from_rgb(r as u8, g as u8, b as u8)
    } else {
        copy_color(color)
    }
}

/// Whether three channels are within 2 of each other, red to green and
/// green to blue.
pub open spec fn near_gray(c: (u8, u8, u8)) -> bool {
    -2 <= c.0 - c.1 <= 2 && -2 <= c.1 - c.2 <= 2
}

/// The channels a color mixed for a gradient is snapped to: a near-gray
/// with red from 115 to 120 becomes the gray 119; a color with green at
/// most 5 whose red and blue lie in one of the bands of a red-to-blue mix
/// becomes that band's color; any other is kept.
pub open spec fn spec_snap_channels(c: (u8, u8, u8)) -> (u8, u8, u8) {
    if near_gray(c) && 115 <= c.0 <= 120 {
        (119u8, 119u8, 119u8)
    } else if c.1 <= 5 && 245 <= c.0 <= 248 && 42 <= c.2 <= 48 {
        (246u8, 0u8, 45u8)
    } else if c.1 <= 5 && 233 <= c.0 <= 240 && 70 <= c.2 <= 77 {
        (235u8, 0u8, 73u8)
    } else if c.1 <= 5 && 220 <= c.0 <= 226 && 95 <= c.2 <= 103 {
        (223u8, 0u8, 99u8)
    } else if c.1 <= 5 && 207 <= c.0 <= 213 && 120 <= c.2 <= 128 {
        (210u8, 0u8, 124u8)
    } else if c.1 <= 5 && 190 <= c.0 <= 196 && 145 <= c.2 <= 153 {
        (193u8, 0u8, 149u8)
    } else if c.1 <= 5 && 170 <= c.0 <= 176 && 171 <= c.2 <= 179 {
        (173u8, 0u8, 175u8)
    } else if c.1 <= 5 && 144 <= c.0 <= 150 && 197 <= c.2 <= 205 {
        (147u8, 0u8, 201u8)
    } else if c.1 <= 5 && 100 <= c.0 <= 115 && 220 <= c.2 <= 235 {
        (109u8, 0u8, 228u8)
    } else {
        c
    }
}

/// Snaps the channels of a mixed color (see `spec_snap_channels`).
pub fn snap_channels(c: (u8, u8, u8)) -> (r: (u8, u8, u8))
    ensures
        r == spec_snap_channels(c),
{
    let rg: i16 = c.0 as i16 - c.1 as i16;
    let gb: i16 = c.1 as i16 - c.2 as i16;
    if -2 <= rg && rg <= 2 && -2 <= gb && gb <= 2 && 115 <= c.0 && c.0 <= 120 {
        (119u8, 119u8, 119u8)
    } else if c.1 <= 5 && 245 <= c.0 && c.0 <= 248 && 42 <= c.2 && c.2 <= 48 {
        (246u8, 0u8, 45u8)
    } else if c.1 <= 5 && 233 <= c.0 && c.0 <= 240 && 70 <= c.2 && c.2 <= 77 {
        (235u8, 0u8, 73u8)
    } else if c.1 <= 5 && 220 <= c.0 && c.0 <= 226 && 95 <= c.2 && c.2 <= 103 {
        (223u8, 0u8, 99u8)
    } else if c.1 <= 5 && 207 <= c.0 && c.0 <= 213 && 120 <= c.2 && c.2 <= 128 {
        (210u8, 0u8, 124u8)
    } else if c.1 <= 5 && 190 <= c.0 && c.0 <= 196 && 145 <= c.2 && c.2 <= 153 {
        (193u8, 0u8, 149u8)
    } else if c.1 <= 5 && 170 <= c.0 && c.0 <= 176 && 171 <= c.2 && c.2 <= 179 {
        (173u8, 0u8, 175u8)
    } else if c.1 <= 5 && 144 <= c.0 && c.0 <= 150 && 197 <= c.2 && c.2 <= 205 {
        (147u8, 0u8, 201u8)
    } else if c.1 <= 5 && 100 <= c.0 && c.0 <= 115 && 220 <= c.2 && c.2 <= 235 {
        (109u8, 0u8, 228u8)
    } else {
        c
    }
}

/// The channels of a stop once made opaque, as bytes.
fn stop_channels(c: &Color) -> (r: (u8, u8, u8))
    ensures
        r == rgb8(c.0@),
{
    let opaque = ensure_not_transparent_color(c);
    let (r, g, b, _a) = opaque.rgba();
    proof {
        let v = spec_color_rgba(c.0@);
        if v.3 == 0 {
            law_hex_round_trip(v.0 as u8, v.1 as u8, v.2 as u8, 255);
        }
    }
    (r as u8, g as u8, b as u8)
}

/// The red, green and blue channels of a color string as bytes.
pub open spec fn rgb8(c: Seq<char>) -> (u8, u8, u8) {
    let v = spec_color_rgba(c);
    (v.0 as u8, v.1 as u8, v.2 as u8)
}

/// The strings of the colors.
pub open spec fn color_strs(cs: Seq<Color>) -> Seq<Seq<char>> {
    cs.map_values(|c: Color| c.0@)
}

/// The non-empty strings, in order.
pub open spec fn non_empty(s: Seq<Seq<char>>) -> Seq<Seq<char>>
    decreases s.len(),
{
    if s.len() == 0 {
        Seq::<Seq<char>>::empty()
    } else if s.last().len() > 0 {
        non_empty(s.drop_last()).push(s.last())
    } else {
        non_empty(s.drop_last())
    }
}

/// The stops that are set (a color with an empty string is no stop).
pub open spec fn valid_stops(stops: Seq<Color>) -> Seq<Seq<char>> {
    non_empty(color_strs(stops))
}

/// The number of steps: at least two.
pub open spec fn blend_steps(steps: nat) -> nat {
    if steps < 2 { 2 } else { steps }
}

/// Size of segment `i` when `steps` are spread over `nseg` segments: the
/// first `steps % nseg` segments get one step more.
pub open spec fn seg_size(steps: nat, nseg: nat, i: int) -> nat {
    steps / nseg + if i < steps % nseg { 1nat } else { 0nat }
}

/// Index of the first step of segment `i`.
pub open spec fn seg_start(steps: nat, nseg: nat, i: int) -> int {
    i * (steps / nseg) as int + if i < steps % nseg { i } else { (steps % nseg) as int }
}

/// Step `j` of segment `i` (from stop `i` to stop `i + 1`): the first step
/// is stop `i`, the last stop `i + 1`, and a step between is `#rrggbb` of
/// what the mixer returns for the two stops' channels, `j` and the
/// segment's size less one.
pub open spec fn blend_cell_ok<F: Fn((u8, u8, u8), (u8, u8, u8), usize, usize) -> (u8, u8, u8)>(
    out: Seq<Color>,
    stops: Seq<Seq<char>>,
    steps: nat,
    mix: F,
    i: int,
    j: int,
) -> bool {
    let nseg = (stops.len() - 1) as nat;
    let size = seg_size(steps, nseg, i);
    let c = out[seg_start(steps, nseg, i) + j];
    if j == 0 {
        c.0@ == stops[i]
    } else if j == size - 1 {
        c.0@ == stops[i + 1]
    } else {
        exists|m: (u8, u8, u8)|
            call_ensures(mix, (rgb8(stops[i]), rgb8(stops[i + 1]), j as usize, (size - 1) as usize), m)
                && c.0@ == spec_hex_rgb(m.0, m.1, m.2)
    }
}

/// `out` is the gradient of `steps` steps through the stops (two or more).
pub open spec fn is_blend<F: Fn((u8, u8, u8), (u8, u8, u8), usize, usize) -> (u8, u8, u8)>(
    out: Seq<Color>,
    stops: Seq<Seq<char>>,
    steps: nat,
    mix: F,
) -> bool {
    let nseg = (stops.len() - 1) as nat;
    &&& out.len() == steps
    &&& forall|i: int, j: int|
        0 <= i < nseg && 0 <= j < seg_size(steps, nseg, i) ==> #[trigger] blend_cell_ok(
            out,
            stops,
            steps,
            mix,
            i,
            j,
        )
}

proof fn lemma_seg_start_next(steps: nat, nseg: nat, i: int)
    requires
        nseg > 0,
        0 <= i,
    ensures
        seg_start(steps, nseg, i + 1) == seg_start(steps, nseg, i) + seg_size(steps, nseg, i),
{
    let d = (steps / nseg) as int;
    assert((i + 1) * d == i * d + d) by (nonlinear_arith);
}

proof fn lemma_seg_start_end(steps: nat, nseg: nat)
    requires
        nseg > 0,
    ensures
        seg_start(steps, nseg, nseg as int) == steps,
{
    vstd::arithmetic::div_mod::lemma_fundamental_div_mod(steps as int, nseg as int);
    let d = (steps / nseg) as int;
    assert(nseg * d == d * nseg) by (nonlinear_arith);
}

/// A gradient of `steps` colors (at least two) through the stops that are
/// set: none when no stop is set, copies of the stop when one is, else the
/// steps spread over the segments between consecutive stops (the first
/// `steps % segments` segments one step longer), each segment starting at
/// its first stop and ending at its second, with the colors between them
/// given by `mix` from the stops' channels, the step and the segment's
/// size less one.
pub fn blend_1d<F: Fn((u8, u8, u8), (u8, u8, u8), usize, usize) -> (u8, u8, u8)>(
    steps: usize,
    stops: Vec<Color>,
    mix: F,
) -> (out: Vec<Color>)
    requires
        forall|a: (u8, u8, u8), b: (u8, u8, u8), j: usize, d: usize| #[trigger] mix.requires((a, b, j, d)),
    ensures
        valid_stops(stops@).len() == 0 ==> out@.len() == 0,
        valid_stops(stops@).len() == 1 ==> out@.len() == blend_steps(steps as nat) && forall|k: int|
            0 <= k < out@.len() ==> #[trigger] out@[k].0@ == valid_stops(stops@)[0],
        valid_stops(stops@).len() >= 2 ==> is_blend(out@, valid_stops(stops@), blend_steps(steps as nat), mix),
{
    let steps: usize = if steps < 2 { 2 } else { steps };
    let mut valid: Vec<Color> = Vec::new();
    let mut k: usize = 0;
    assert(non_empty(color_strs(stops@).take(0)) =~= Seq::<Seq<char>>::empty());
    assert(color_strs(valid@) =~= Seq::<Seq<char>>::empty());
    while k < stops.len()
        invariant
            k <= stops.len(),
            color_strs(valid@) == non_empty(color_strs(stops@).take(k as int)),
        decreases stops.len() - k,
    {
        let ghost before = valid@;
        if !stops[k].0.as_str().is_empty() {
            valid.push(copy_color(&stops[k]));
            assert(color_strs(valid@) =~= color_strs(before).push(stops@[k as int].0@));
        }
        proof {
            let prev = color_strs(stops@).take(k as int);
            let e = stops@[k as int].0@;
            assert(color_strs(stops@).take(k + 1).drop_last() =~= prev);
            assert(color_strs(stops@).take(k + 1).last() == e);
        }
        k = k + 1;
    }
    assert(color_strs(stops@).take(stops.len() as int) =~= color_strs(stops@));
    let ghost vs = valid_stops(stops@);
    assert(color_strs(valid@) == vs);
    let mut out: Vec<Color> = Vec::new();
    if valid.len() == 0 {
        return out;
    }
    if valid.len() == 1 {
        let mut t: usize = 0;
        while t < steps
            invariant
                t <= steps,
                color_strs(valid@) == vs,
                vs.len() == 1,
                out@.len() == t,
                forall|q: int| 0 <= q < t ==> #[trigger] out@[q].0@ == vs[0],
            decreases steps - t,
        {
            assert(valid@[0].0@ == vs[0]);
            out.push(copy_color(&valid[0]));
            t = t + 1;
        }
        return out;
    }
    let mut rgbs: Vec<(u8, u8, u8)> = Vec::new();
    let mut t: usize = 0;
    while t < valid.len()
        invariant
            t <= valid.len(),
            rgbs@.len() == t,
            forall|q: int| 0 <= q < t ==> #[trigger] rgbs@[q] == rgb8(valid@[q].0@),
        decreases valid.len() - t,
    {
        rgbs.push(stop_channels(&valid[t]));
        t = t + 1;
    }
    let nseg = valid.len() - 1;
    let default_size = steps / nseg;
    let remaining = steps % nseg;
    let ghost st = steps as nat;
    let ghost ns = nseg as nat;
    let mut i: usize = 0;
    while i < nseg
        invariant
            i <= nseg,
            nseg == valid.len() - 1,
            nseg > 0,
            st == steps,
            ns == nseg,
            color_strs(valid@) == vs,
            default_size == steps / nseg,
            remaining == steps % nseg,
            rgbs@.len() == valid.len(),
            forall|q: int| 0 <= q < rgbs@.len() ==> #[trigger] rgbs@[q] == rgb8(vs[q]),
            forall|a: (u8, u8, u8), b: (u8, u8, u8), j: usize, d: usize| #[trigger] mix.requires((a, b, j, d)),
            out@.len() == seg_start(st, ns, i as int),
            forall|i2: int, j2: int|
                0 <= i2 < i && 0 <= j2 < seg_size(st, ns, i2) ==> #[trigger] blend_cell_ok(
                    out@,
                    vs,
                    st,
                    mix,
                    i2,
                    j2,
                ),
        decreases nseg - i,
    {
        proof {
            lemma_seg_start_next(st, ns, i as int);
            lemma_seg_start_end(st, ns);
            vstd::arithmetic::div_mod::lemma_fundamental_div_mod(steps as int, nseg as int);
            assert(seg_start(st, ns, i as int + 1) <= seg_start(st, ns, ns as int)) by {
                lemma_seg_start_mono(st, ns, i as int + 1, ns as int);
            }
        }
        let size = if i < remaining { default_size + 1 } else { default_size };
        assert(size == seg_size(st, ns, i as int));
        let ghost base = out@;
        let mut j: usize = 0;
        while j < size
            invariant
                j <= size,
                i < nseg,
                nseg == valid.len() - 1,
                size == seg_size(st, ns, i as int),
                st == steps,
                ns == nseg,
                color_strs(valid@) == vs,
                rgbs@.len() == valid.len(),
                forall|q: int| 0 <= q < rgbs@.len() ==> #[trigger] rgbs@[q] == rgb8(vs[q]),
                forall|a: (u8, u8, u8), b: (u8, u8, u8), j: usize, d: usize| #[trigger] mix.requires((a, b, j, d)),
                base.len() == seg_start(st, ns, i as int),
                out@.len() == base.len() + j,
                forall|q: int| 0 <= q < base.len() ==> #[trigger] out@[q] == base[q],
                forall|j2: int| 0 <= j2 < j ==> #[trigger] blend_cell_ok(out@, vs, st, mix, i as int, j2),
            decreases size - j,
        {
            let c: Color;
            assert(valid@[i as int].0@ == vs[i as int]);
            assert(valid@[i + 1].0@ == vs[i + 1]);
            if j == 0 {
                c = copy_color(&valid[i]);
            } else if j == size - 1 {
                c = copy_color(&valid[i + 1]);
            } else {
                let m = mix(rgbs[i], rgbs[i + 1], j, size - 1);
                c = Color::from_rgb(m.0, m.1, m.2);
                assert(call_ensures(mix, (rgb8(vs[i as int]), rgb8(vs[i as int + 1]), j, (size - 1) as usize), m));
            }
            let ghost before = out@;
            out.push(c);
            proof {
                assert forall|j2: int| 0 <= j2 < j + 1 implies #[trigger] blend_cell_ok(out@, vs, st, mix, i as int, j2) by {
                    if j2 < j {
                        assert(blend_cell_ok(before, vs, st, mix, i as int, j2));
                        assert(out@[seg_start(st, ns, i as int) + j2] == before[seg_start(st, ns, i as int) + j2]);
                    }
                }
            }
            j = j + 1;
        }
        proof {
            assert forall|i2: int, j2: int|
                0 <= i2 < i + 1 && 0 <= j2 < seg_size(st, ns, i2) implies #[trigger] blend_cell_ok(
                    out@,
                    vs,
                    st,
                    mix,
                    i2,
                    j2,
                ) by {
                if i2 < i {
                    assert(blend_cell_ok(base, vs, st, mix, i2, j2));
                    lemma_seg_start_mono(st, ns, i2 + 1, i as int);
                    lemma_seg_start_next(st, ns, i2);
                    assert(out@[seg_start(st, ns, i2) + j2] == base[seg_start(st, ns, i2) + j2]);
                }
            }
        }
        i = i + 1;
    }
    proof {
        lemma_seg_start_end(st, ns);
    }
    out
}


/// A gradient starts with its first stop exactly, and, when every segment
/// has at least two steps (`steps >= 2 * segments`), ends with its last
/// stop exactly: the stops go through no color conversion.
pub proof fn law_blend_keeps_end_stops<F: Fn((u8, u8, u8), (u8, u8, u8), usize, usize) -> (u8, u8, u8)>(
    out: Seq<Color>,
    stops: Seq<Seq<char>>,
    steps: nat,
    mix: F,
)
    requires
        stops.len() >= 2,
        steps >= 1,
        is_blend(out, stops, steps, mix),
    ensures
        out.len() == steps,
        out[0].0@ == stops[0],
        steps >= 2 * (stops.len() - 1) ==> out[steps - 1].0@ == stops[stops.len() - 1],
{
    let nseg = (stops.len() - 1) as nat;
    vstd::arithmetic::div_mod::lemma_fundamental_div_mod(steps as int, nseg as int);
    assert(seg_size(steps, nseg, 0) >= 1) by {
        if steps / nseg == 0 {
            assert(steps % nseg == steps);
        }
    }
    assert(seg_start(steps, nseg, 0) == 0);
    assert(blend_cell_ok(out, stops, steps, mix, 0, 0));
    if steps >= 2 * nseg {
        let i = nseg - 1;
        lemma_seg_start_next(steps, nseg, i);
        lemma_seg_start_end(steps, nseg);
        assert(steps % nseg < nseg);
        assert(steps / nseg >= 2) by {
            vstd::arithmetic::div_mod::lemma_div_is_ordered((2 * nseg) as int, steps as int, nseg as int);
            vstd::arithmetic::div_mod::lemma_div_multiples_vanish(2, nseg as int);
            assert(2 * nseg == nseg * 2) by (nonlinear_arith);
        }
        let size = seg_size(steps, nseg, i);
        assert(size == steps / nseg);
        assert(seg_start(steps, nseg, i) + size - 1 == steps - 1);
        assert(blend_cell_ok(out, stops, steps, mix, i, size - 1));
    }
}


proof fn lemma_non_empty_all_set(s: Seq<Seq<char>>)
    ensures
        forall|i: int| 0 <= i < non_empty(s).len() ==> #[trigger] non_empty(s)[i].len() > 0,
    decreases s.len(),
{
    if s.len() > 0 {
        lemma_non_empty_all_set(s.drop_last());
        let p = non_empty(s.drop_last());
        if s.last().len() > 0 {
            assert forall|i: int| 0 <= i < non_empty(s).len() implies #[trigger] non_empty(s)[i].len() > 0 by {
                if i < p.len() {
                    assert(non_empty(s)[i] == p[i]);
                }
            }
        }
    }
}

proof fn lemma_non_empty_keeps_set(s: Seq<Seq<char>>)
    requires
        forall|i: int| 0 <= i < s.len() ==> #[trigger] s[i].len() > 0,
    ensures
        non_empty(s) == s,
    decreases s.len(),
{
    if s.len() > 0 {
        let p = s.drop_last();
        assert forall|i: int| 0 <= i < p.len() implies #[trigger] p[i].len() > 0 by {
            assert(p[i] == s[i]);
        }
        lemma_non_empty_keeps_set(p);
        assert(s.last() == s[s.len() - 1]);
        assert(p.push(s.last()) =~= s);
    }
}

/// Removing the unset stops (empty strings) first changes nothing: the
/// stops that count are the same, so `blend_1d` promises the same gradient
/// for both lists.
pub proof fn law_blend_ignores_unset_stops(stops: Seq<Color>, kept: Seq<Color>)
    requires
        color_strs(kept) == non_empty(color_strs(stops)),
    ensures
        valid_stops(kept) == valid_stops(stops),
{
    lemma_non_empty_all_set(color_strs(stops));
    lemma_non_empty_keeps_set(non_empty(color_strs(stops)));
}

proof fn lemma_seg_start_mono(steps: nat, nseg: nat, a: int, b: int)
    requires
        nseg > 0,
        0 <= a <= b,
    ensures
        seg_start(steps, nseg, a) <= seg_start(steps, nseg, b),
    decreases b - a,
{
    if a < b {
        lemma_seg_start_mono(steps, nseg, a, b - 1);
        lemma_seg_start_next(steps, nseg, b - 1);
    }
}

} // verus!
