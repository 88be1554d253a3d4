//! Verified text scanners for the course-schedule page: the section
//! header's time ranges and a cell's duration marking, both fixed textual
//! patterns.
use vstd::prelude::*;
use vstd::string::StringSliceAdditionalSpecFns;

use crate::textutil::{ascii_chars, ascii_to_string};

verus! {

/// A decimal digit byte.
pub open spec fn is_digit(b: u8) -> bool {
    48 <= b <= 57
}

/// The 11-byte clock-range shape `dd:dd~dd:dd` at position `i`.
pub open spec fn time_range_at(s: Seq<u8>, i: int) -> bool {
    &&& 0 <= i
    &&& i + 11 <= s.len()
    &&& is_digit(s[i])
    &&& is_digit(s[i + 1])
    &&& s[i + 2] == 58
    &&& is_digit(s[i + 3])
    &&& is_digit(s[i + 4])
    &&& s[i + 5] == 126
    &&& is_digit(s[i + 6])
    &&& is_digit(s[i + 7])
    &&& s[i + 8] == 58
    &&& is_digit(s[i + 9])
    &&& is_digit(s[i + 10])
}

/// The clock ranges found from position `i` on, leftmost first and
/// non-overlapping.
pub open spec fn time_matches_from(s: Seq<u8>, i: int) -> Seq<Seq<u8>>
    decreases s.len() - i + 11,
{
    if i < 0 || i + 11 > s.len() {
        Seq::empty()
    } else if time_range_at(s, i) {
        seq![s.subrange(i, i + 11)] + time_matches_from(s, i + 11)
    } else {
        time_matches_from(s, i + 1)
    }
}

/// Pieces joined with a dash, as the schedule shows multiple ranges.
pub open spec fn join_dash(parts: Seq<Seq<u8>>) -> Seq<u8>
    decreases parts.len(),
{
    if parts.len() == 0 {
        Seq::empty()
    } else if parts.len() == 1 {
        parts[0]
    } else {
        parts[0] + seq![45u8] + join_dash(parts.skip(1))
    }
}

/// All clock ranges of a section header, joined with dashes; empty when
/// the header names none.
pub open spec fn time_ranges_of(s: Seq<u8>) -> Seq<u8> {
    join_dash(time_matches_from(s, 0))
}

proof fn lemma_join_dash_push(parts: Seq<Seq<u8>>, m: Seq<u8>)
    ensures
        join_dash(parts.push(m)) == if parts.len() == 0 {
            m
        } else {
            join_dash(parts) + seq![45u8] + m
        },
    decreases parts.len(),
{
    if parts.len() == 0 {
        assert(parts.push(m) =~= seq![m]);
        assert(join_dash(seq![m]) == m);
    } else if parts.len() == 1 {
        assert(parts.push(m).skip(1) =~= seq![m]);
        assert(join_dash(seq![m]) == m);
        assert(join_dash(parts.push(m)) == parts[0] + seq![45u8] + m);
    } else {
        assert(parts.push(m).skip(1) =~= parts.skip(1).push(m));
        lemma_join_dash_push(parts.skip(1), m);
        assert(join_dash(parts.push(m)) == parts[0] + seq![45u8] + (join_dash(parts.skip(1))
            + seq![45u8] + m));
        assert(parts[0] + seq![45u8] + (join_dash(parts.skip(1)) + seq![45u8] + m) =~= (parts[0]
            + seq![45u8] + join_dash(parts.skip(1))) + seq![45u8] + m);
    }
}

fn time_range_at_exec(bytes: &[u8], i: usize) -> (r: bool)
    requires
        i + 11 <= bytes@.len(),
    ensures
        r == time_range_at(bytes@, i as int),
{
    let d = |b: u8| -> (res: bool)
        ensures
            res == is_digit(b),
        { 48 <= b && b <= 57 };
    d(bytes[i]) && d(bytes[i + 1]) && bytes[i + 2] == 58 && d(bytes[i + 3]) && d(bytes[i + 4])
        && bytes[i + 5] == 126 && d(bytes[i + 6]) && d(bytes[i + 7]) && bytes[i + 8] == 58 && d(
        bytes[i + 9],
    ) && d(bytes[i + 10])
}

/// Collects every clock range of a section header's text and joins them
/// with dashes, as the schedule's time column shows them.
pub fn extract_time_ranges(text: &str) -> (r: String)
    ensures
        r@ == ascii_chars(time_ranges_of(text.spec_bytes())),
{
    let bytes = text.as_bytes();
    let n = bytes.len();
    let mut out: Vec<u8> = Vec::new();
    let mut first: bool = true;
    let ghost mut done: Seq<Seq<u8>> = Seq::empty();
    let mut i: usize = 0;
    proof {
        assert(Seq::<Seq<u8>>::empty() + time_matches_from(bytes@, 0) =~= time_matches_from(
            bytes@,
            0,
        ));
    }
    while i < n
        invariant
            i <= n,
            n == bytes@.len(),
            time_matches_from(bytes@, 0) == done + time_matches_from(bytes@, i as int),
            out@ == join_dash(done),
            first == (done.len() == 0),
            forall|k: int| 0 <= k < out@.len() ==> out@[k] < 128,
        decreases n - i,
    {
        if n - i >= 11 && time_range_at_exec(bytes, i) {
            if !first {
                out.push(45);
            }
            let mut t: usize = 0;
            let ghost out_mark: Seq<u8> = out@;
            while t < 11
                invariant
                    t <= 11,
                    i + 11 <= n == bytes@.len(),
                    time_range_at(bytes@, i as int),
                    out@ == out_mark + bytes@.subrange(i as int, i + t),
                decreases 11 - t,
            {
                proof {
                    assert(bytes@[i + t] < 128);
                }
                out.push(bytes[i + t]);
                proof {
                    assert(out@ =~= out_mark + bytes@.subrange(i as int, i + t + 1));
                }
                t = t + 1;
            }
            proof {
                let m = bytes@.subrange(i as int, i + 11);
                lemma_join_dash_push(done, m);
                assert(out@ =~= join_dash(done.push(m)));
                assert(done.push(m) + time_matches_from(bytes@, i + 11) =~= done + (seq![m]
                    + time_matches_from(bytes@, i + 11)));
                assert(forall|k: int| 0 <= k < m.len() ==> m[k] < 128);
                done = done.push(m);
            }
            first = false;
            i = i + 11;
        } else {
            proof {
                if i + 11 <= n {
                    assert(time_matches_from(bytes@, i as int) == time_matches_from(
                        bytes@,
                        i + 1,
                    ));
                } else {
                    assert(time_matches_from(bytes@, i as int) =~= time_matches_from(
                        bytes@,
                        i + 1,
                    ));
                }
            }
            i = i + 1;
        }
    }
    proof {
        assert(time_matches_from(bytes@, i as int) =~= Seq::<Seq<u8>>::empty());
        assert(done =~= time_matches_from(bytes@, 0));
    }
    ascii_to_string(out)
}

/// End of a duration run starting at `j`: the position of the closing
/// bracket after one or more two-digit groups, each followed by an
/// optional dash; nothing when the text diverges from that shape.
pub open spec fn scan_units(s: Seq<u8>, j: int) -> Option<int>
    decreases s.len() - j,
{
    if j < 0 || j + 2 > s.len() || !is_digit(s[j]) || !is_digit(s[j + 1]) {
        None
    } else {
        let k = j + 2;
        if k < s.len() && s[k] == 93 {
            Some(k)
        } else if k < s.len() && s[k] == 45 {
            if k + 1 < s.len() && s[k + 1] == 93 {
                Some(k + 1)
            } else {
                scan_units(s, k + 1)
            }
        } else {
            scan_units(s, k)
        }
    }
}

/// Capture of the duration pattern from position `i` on: the start of the
/// bracketed run and the closing bracket's position, at the first position
/// where the pattern matches.
pub open spec fn find_duration_from(s: Seq<u8>, i: int) -> Option<(int, int)>
    decreases s.len() - i,
{
    if i < 0 || i >= s.len() {
        None
    } else if s[i] == 91 && scan_units(s, i + 1) is Some {
        Some((i + 1, scan_units(s, i + 1)->Some_0))
    } else {
        find_duration_from(s, i + 1)
    }
}

/// The duration digits a cell's markup carries: the text inside the first
/// bracketed run of two-digit groups; nothing when no such run occurs.
pub open spec fn duration_capture(s: Seq<u8>) -> Option<Seq<u8>> {
    match find_duration_from(s, 0) {
        Some((b, e)) => Some(s.subrange(b, e)),
        None => None,
    }
}

proof fn lemma_units_ascii(s: Seq<u8>, j: int, e: int)
    requires
        scan_units(s, j) == Some(e),
    ensures
        j <= e < s.len(),
        forall|k: int| j <= k < e ==> s[k] < 128,
    decreases s.len() - j,
{
    let k = j + 2;
    if k < s.len() && s[k] == 93 {
    } else if k < s.len() && s[k] == 45 {
        if k + 1 < s.len() && s[k + 1] == 93 {
        } else {
            lemma_units_ascii(s, k + 1, e);
        }
    } else {
        lemma_units_ascii(s, k, e);
    }
}

fn scan_units_exec(bytes: &[u8], start: usize) -> (r: Option<usize>)
    requires
        start <= bytes@.len(),
    ensures
        match r {
            Some(e) => scan_units(bytes@, start as int) == Some(e as int) && start <= e
                < bytes@.len(),
            None => scan_units(bytes@, start as int) is None,
        },
{
    let n = bytes.len();
    let mut j: usize = start;
    while n - j >= 2
        invariant
            start <= j <= n,
            n == bytes@.len(),
            scan_units(bytes@, start as int) == scan_units(bytes@, j as int),
        decreases n - j,
    {
        let d1 = bytes[j];
        let d2 = bytes[j + 1];
        if !(48 <= d1 && d1 <= 57) || !(48 <= d2 && d2 <= 57) {
            return None;
        }
        let k = j + 2;
        if k < n && bytes[k] == 93 {
            proof {
                lemma_units_ascii(bytes@, j as int, k as int);
            }
            return Some(k);
        }
        if k < n && bytes[k] == 45 {
            if k + 1 < n && bytes[k + 1] == 93 {
                proof {
                    lemma_units_ascii(bytes@, j as int, k + 1);
                }
                return Some(k + 1);
            }
            proof {
                assert(scan_units(bytes@, j as int) == scan_units(bytes@, k + 1));
            }
            j = k + 1;
        } else {
            proof {
                assert(scan_units(bytes@, j as int) == scan_units(bytes@, k as int));
            }
            j = k;
        }
    }
    None
}

/// Reads a cell's duration marking: the digits of the first bracketed run
/// with the trailing section word, or the empty string when the cell
/// carries none.
pub fn extract_duration(html: &str) -> (r: String)
    ensures
        duration_capture(html.spec_bytes()) matches Some(c) ==> r@ == ascii_chars(c) + "节"@,
        duration_capture(html.spec_bytes()) is None ==> r@ == Seq::<char>::empty(),
{
    let bytes = html.as_bytes();
    let n = bytes.len();
    let mut i: usize = 0;
    while i < n
        invariant
            i <= n,
            n == bytes@.len(),
            bytes@ == html.spec_bytes(),
            find_duration_from(bytes@, 0) == find_duration_from(bytes@, i as int),
        decreases n - i,
    {
        if bytes[i] == 91 {
            match scan_units_exec(bytes, i + 1) {
                Some(e) => {
                    proof {
                        assert(find_duration_from(bytes@, i as int) == Some((i + 1, e as int)));
                        lemma_units_ascii(bytes@, i + 1, e as int);
                    }
                    let mut cap: Vec<u8> = Vec::new();
                    let mut t: usize = i + 1;
                    proof {
                        assert(cap@ =~= bytes@.subrange(i + 1, i + 1));
                    }
                    while t < e
                        invariant
                            i + 1 <= t <= e,
                            e < n == bytes@.len(),
                            cap@ == bytes@.subrange(i + 1, t as int),
                            forall|k: int| i + 1 <= k < e ==> bytes@[k] < 128,
                        decreases e - t,
                    {
                        cap.push(bytes[t]);
                        proof {
                            assert(cap@ =~= bytes@.subrange(i + 1, t + 1));
                        }
                        t = t + 1;
                    }
                    let mut s = ascii_to_string(cap);
                    s.append("节");
                    proof {
                        assert(duration_capture(bytes@) == Some(bytes@.subrange(
                            i + 1,
                            e as int,
                        )));
                    }
                    return s;
                },
                None => {
                    proof {
                        assert(find_duration_from(bytes@, i as int) == find_duration_from(
                            bytes@,
                            i + 1,
                        ));
                    }
                },
            }
        } else {
            proof {
                assert(find_duration_from(bytes@, i as int) == find_duration_from(
                    bytes@,
                    i + 1,
                ));
            }
        }
        i = i + 1;
    }
    String::new()
}

} // verus!
