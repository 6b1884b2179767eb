//! Screenshots for the model: how large they are sent, and what of a data URL
//! goes over the wire.

use vstd::prelude::*;

use crate::precision;
use crate::text;
use crate::text::{chars_of, copy_range, find_from, string_of};

verus! {

/// The longest edge that is worth sending.
pub const MAX_IMAGE_LONG_EDGE: i32 = 1568;

/// The longer of two edges.
pub open spec fn long_edge(w: int, h: int) -> int {
    if w < h {
        h
    } else {
        w
    }
}

/// `edge` times `max / long`, in double precision and to the nearest whole
/// number, at least 1.
pub open spec fn scaled_edge(edge: int, max: int, long: int) -> int {
    if edge <= 0 || precision::part_of(edge, max, long, precision::DOUBLE as int) < 1 {
        1
    } else {
        precision::part_of(edge, max, long, precision::DOUBLE as int)
    }
}

/// Keeps the aspect ratio while capping the longer edge at `max`. Never
/// enlarges.
pub fn scale_to_max_edge(src_w: i32, src_h: i32, max: i32) -> (r: (i32, i32))
    requires
        0 < max,
    ensures
        ({
            let long = long_edge(src_w as int, src_h as int);
            if long <= max {
                r == (src_w, src_h)
            } else {
                r.0 == scaled_edge(src_w as int, max as int, long) && r.1 == scaled_edge(
                    src_h as int,
                    max as int,
                    long,
                )
            }
        }),
{
    let long: i32 = if src_w < src_h {
        src_h
    } else {
        src_w
    };
    if long <= max {
        return (src_w, src_h);
    }
    (scale_edge(src_w, max, long), scale_edge(src_h, max, long))
}

fn scale_edge(edge: i32, max: i32, long: i32) -> (r: i32)
    requires
        edge <= long,
        0 < max < long,
    ensures
        r == scaled_edge(edge as int, max as int, long as int),
{
    if edge <= 0 {
        return 1;
    }
    proof {
        lemma_scaled_edge(edge as int, max as int, long as int);
    }
    let q: u128 = precision::part(edge as u32, max as u32, long as u32, precision::DOUBLE);
    if q < 1 {
        1
    } else {
        q as i32
    }
}

/// A scaled edge is between 1 and the cap, no longer than it was, and less than
/// a pixel away from the exact proportion.
proof fn lemma_scaled_edge(edge: int, max: int, long: int)
    requires
        0 < edge <= long,
        0 < max < long,
        long <= i32::MAX,
    ensures
        ({
            let r = scaled_edge(edge, max, long);
            &&& 1 <= r <= max
            &&& r <= edge
            &&& r > 1 ==> -long < r * long - edge * max < long
            &&& edge == long ==> r == max
            &&& r == 1 || r == precision::part_of(edge, max, long, precision::DOUBLE as int)
            &&& precision::part_of(edge, max, long, precision::DOUBLE as int) <= max
        }),
{
    let r = precision::part_of(edge, max, long, precision::DOUBLE as int);
    precision::lemma_part_is_near(edge, max, long, precision::DOUBLE as int);
    assert(r <= max) by (nonlinear_arith)
        requires
            r * long < edge * max + long,
            0 < edge <= long,
            0 < max,
    ;
    assert(r <= edge) by (nonlinear_arith)
        requires
            r * long < edge * max + long,
            0 < edge <= long,
            0 < max < long,
    ;
    if edge == long {
        assert(max <= r) by (nonlinear_arith)
            requires
                r * long > long * max - long,
                0 < long,
        ;
    }
}

/// The scaled picture fits the cap, never grows, has the cap for its longer
/// edge and keeps the proportions to less than a pixel.
pub proof fn law_scaling_keeps_proportions(w: int, h: int, max: int)
    requires
        0 < w <= i32::MAX,
        0 < h <= i32::MAX,
        0 < max < long_edge(w, h),
    ensures
        ({
            let long = long_edge(w, h);
            let sw = scaled_edge(w, max, long);
            let sh = scaled_edge(h, max, long);
            &&& 1 <= sw <= max
            &&& 1 <= sh <= max
            &&& sw <= w
            &&& sh <= h
            &&& long_edge(sw, sh) == max
            &&& sw > 1 ==> -long < sw * long - w * max < long
            &&& sh > 1 ==> -long < sh * long - h * max < long
        }),
{
    let long = long_edge(w, h);
    lemma_scaled_edge(w, max, long);
    lemma_scaled_edge(h, max, long);
}

/// The part of a data URL after its first comma: the data itself.
pub fn data_of_url(data_url: &str) -> (r: Option<String>)
    ensures
        ({
            let k = text::index_from(data_url@, ',', 0);
            &&& r is Some <==> k < data_url@.len()
            &&& r matches Some(s) ==> s@ == data_url@.skip(k + 1)
        }),
{
    let chars = chars_of(data_url);
    let n: usize = chars.len();
    let k: usize = find_from(chars.as_slice(), ',', 0);
    if k >= n {
        return None;
    }
    let rest = copy_range(chars.as_slice(), k + 1, n);
    assert(rest@ =~= data_url@.skip(k + 1));
    Some(string_of(rest.as_slice()))
}

/// An edge never vanishes: it is at least one pixel long.
pub proof fn law_edges_do_not_vanish(edge: int, max: int, long: int)
    ensures
        scaled_edge(edge, max, long) >= 1,
        edge <= 0 ==> scaled_edge(edge, max, long) == 1,
        long_edge(edge, long) >= edge && long_edge(edge, long) >= long,
        long_edge(edge, long) == edge || long_edge(edge, long) == long,
{
}

/// The data of a URL is what follows its first comma; without one there is none.
pub proof fn law_data_follows_the_comma(url: &str, head: Seq<char>, data: Seq<char>, r: Option<String>)
    requires
        call_ensures(data_of_url, (url,), r),
        forall|k: int| 0 <= k < head.len() ==> head[k] != ',',
    ensures
        url@ == head + ","@ + data ==> r is Some && r->0@ == data,
        url@ == head ==> r is None,
{
    reveal_strlit(",");
    let s = head + ","@ + data;
    let n = head.len() as int;
    text::lemma_index_from(s, ',', 0);
    text::lemma_index_from(head, ',', 0);
    assert(s[n] == ',');
    assert forall|k: int| 0 <= k < n implies s[k] != ',' by {
        assert(s[k] == head[k]);
    }
    assert(s.skip(n + 1) =~= data);
}

} // verus!
