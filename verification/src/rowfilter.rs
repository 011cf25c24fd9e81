//! The tabular row filter: a line-oriented utility independent of the image
//! pipeline. A line of comma-separated fields is dropped when its third
//! field (index 2) contains any of a set of match terms as a substring;
//! every other line is kept verbatim.

use vstd::prelude::*;

verus! {

/// The views of a sequence of byte vectors.
pub open spec fn views_of(rows: Seq<Vec<u8>>) -> Seq<Seq<u8>> {
    rows.map_values(|v: Vec<u8>| v@)
}

/// The fields of a line split on commas (byte 44). The empty line has one
/// empty field; every comma ends a field and starts the next.
pub open spec fn split_commas(s: Seq<u8>) -> Seq<Seq<u8>>
    decreases s.len(),
{
    if s.len() == 0 {
        seq![Seq::<u8>::empty()]
    } else if s[0] == 44u8 {
        seq![Seq::<u8>::empty()] + split_commas(s.skip(1))
    } else {
        let rest = split_commas(s.skip(1));
        rest.update(0, seq![s[0]] + rest[0])
    }
}

/// `t` occurs as a contiguous substring of `s`.
pub open spec fn contains_sub(s: Seq<u8>, t: Seq<u8>) -> bool {
    exists|k: int|
        0 <= k && k + t.len() <= s.len() && #[trigger] s.subrange(k, k + t.len() as int) == t
}

/// Some term of `terms` occurs as a substring of `field`.
pub open spec fn term_matches(field: Seq<u8>, terms: Seq<Seq<u8>>) -> bool {
    exists|j: int| 0 <= j < terms.len() && contains_sub(field, terms[j])
}

/// A line is dropped when it has at least three comma-separated fields and
/// the third contains some match term.
pub open spec fn row_matches(line: Seq<u8>, terms: Seq<Seq<u8>>) -> bool {
    split_commas(line).len() >= 3 && term_matches(split_commas(line)[2], terms)
}

/// The lines kept by the filter: those that no match term drops, in order,
/// unchanged.
pub open spec fn keep_rows(lines: Seq<Seq<u8>>, terms: Seq<Seq<u8>>) -> Seq<Seq<u8>> {
    lines.filter(|l: Seq<u8>| !row_matches(l, terms))
}

/// Splits the tail of a line, from byte `from` on, into its comma-separated
/// fields.
pub fn split_line_from(s: &Vec<u8>, from: usize) -> (r: Vec<Vec<u8>>)
    requires
        from <= s@.len(),
    ensures
        views_of(r@) == split_commas(s@.skip(from as int)),
        r@.len() >= 1,
    decreases s@.len() - from,
{
    if from == s.len() {
        let mut r: Vec<Vec<u8>> = Vec::new();
        r.push(Vec::new());
        proof {
            assert(views_of(r@) =~= split_commas(s@.skip(from as int)));
        }
        r
    } else if s[from] == 44u8 {
        let mut r = split_line_from(s, from + 1);
        r.insert(0, Vec::new());
        proof {
            assert(s@.skip(from as int).skip(1) =~= s@.skip(from as int + 1));
            assert(s@.skip(from as int)[0] == s@[from as int]);
            assert(views_of(r@) =~= split_commas(s@.skip(from as int)));
        }
        r
    } else {
        let mut r = split_line_from(s, from + 1);
        let ghost tail = r@;
        let c = s[from];
        r[0].insert(0, c);
        proof {
            assert(s@.skip(from as int).skip(1) =~= s@.skip(from as int + 1));
            assert(s@.skip(from as int)[0] == s@[from as int]);
            assert(r@[0]@ =~= seq![c] + tail[0]@);
            assert(views_of(r@) =~= split_commas(s@.skip(from as int)));
        }
        r
    }
}

/// Splits a whole line into its comma-separated fields.
pub fn split_line(s: &Vec<u8>) -> (r: Vec<Vec<u8>>)
    ensures
        views_of(r@) == split_commas(s@),
        r@.len() >= 1,
{
    let r = split_line_from(s, 0);
    proof {
        assert(s@.skip(0) =~= s@);
    }
    r
}

/// Whether `t` occurs as a contiguous subslice of `s`.
pub fn contains_subslice(s: &Vec<u8>, t: &Vec<u8>) -> (r: bool)
    ensures
        r == contains_sub(s@, t@),
{
    if t.len() > s.len() {
        return false;
    }
    let mut k: usize = 0;
    while k <= s.len() - t.len()
        invariant
            t@.len() <= s@.len(),
            k <= s@.len() - t@.len() + 1,
            forall|j: int|
                0 <= j < k ==> #[trigger] s@.subrange(j, j + t@.len() as int) != t@,
        decreases s@.len() - t@.len() + 1 - k,
    {
        let mut m: usize = 0;
        while m < t.len() && s[k + m] == t[m]
            invariant
                t@.len() <= s@.len(),
                s@.len() <= usize::MAX,
                k + t@.len() <= s@.len(),
                m <= t@.len(),
                forall|x: int| 0 <= x < m ==> s@[k + x] == t@[x],
            decreases t@.len() - m,
        {
            m = m + 1;
        }
        if m == t.len() {
            proof {
                assert(s@.subrange(k as int, k as int + t@.len() as int) =~= t@);
            }
            return true;
        }
        proof {
            assert(s@.subrange(k as int, k as int + t@.len() as int)[m as int] != t@[m as int]);
        }
        k = k + 1;
    }
    false
}

/// Whether a line has at least three comma-separated fields whose third
/// contains some term of `terms` as a substring.
pub fn should_delete_row(line: &Vec<u8>, terms: &Vec<Vec<u8>>) -> (r: bool)
    ensures
        r == row_matches(line@, views_of(terms@)),
{
    let fields = split_line(line);
    if fields.len() < 3 {
        return false;
    }
    let mut j: usize = 0;
    while j < terms.len()
        invariant
            j <= terms@.len(),
            fields@.len() >= 3,
            views_of(fields@) == split_commas(line@),
            forall|i: int| 0 <= i < j ==> !contains_sub(fields@[2]@, #[trigger] terms@[i]@),
        decreases terms@.len() - j,
    {
        if contains_subslice(&fields[2], &terms[j]) {
            proof {
                assert(contains_sub(split_commas(line@)[2], views_of(terms@)[j as int]));
            }
            return true;
        }
        j = j + 1;
    }
    proof {
        assert(forall|i: int|
            0 <= i < terms@.len() ==> views_of(terms@)[i] == #[trigger] terms@[i]@);
    }
    false
}

/// The four match terms of the original filter, as bytes: `fsc`, `FSC`,
/// `fuel`, `Fuel`.
pub open spec fn fsc_or_fuel_terms_spec() -> Seq<Seq<u8>> {
    seq![
        seq![102u8, 115u8, 99u8],
        seq![70u8, 83u8, 67u8],
        seq![102u8, 117u8, 101u8, 108u8],
        seq![70u8, 117u8, 101u8, 108u8],
    ]
}

/// Builds the four match terms of the original filter.
pub fn fsc_or_fuel_terms() -> (r: Vec<Vec<u8>>)
    ensures
        views_of(r@) == fsc_or_fuel_terms_spec(),
{
    let mut r: Vec<Vec<u8>> = Vec::new();
    r.push(vec![102u8, 115u8, 99u8]);
    r.push(vec![70u8, 83u8, 67u8]);
    r.push(vec![102u8, 117u8, 101u8, 108u8]);
    r.push(vec![70u8, 117u8, 101u8, 108u8]);
    proof {
        assert(views_of(r@) =~~= fsc_or_fuel_terms_spec());
    }
    r
}

/// Keeps every line that no match term drops, in order and unchanged.
pub fn filter_rows(lines: &Vec<Vec<u8>>, terms: &Vec<Vec<u8>>) -> (r: Vec<Vec<u8>>)
    ensures
        views_of(r@) == keep_rows(views_of(lines@), views_of(terms@)),
{
    let ghost pred = |l: Seq<u8>| !row_matches(l, views_of(terms@));
    let mut out: Vec<Vec<u8>> = Vec::new();
    let mut i: usize = 0;
    proof {
        reveal(Seq::filter);
    }
    while i < lines.len()
        invariant
            i <= lines@.len(),
            pred == (|l: Seq<u8>| !row_matches(l, views_of(terms@))),
            views_of(out@) == views_of(lines@).take(i as int).filter(pred),
        decreases lines@.len() - i,
    {
        let ghost prefix = views_of(lines@).take(i as int);
        let ghost next = views_of(lines@).take(i as int + 1);
        proof {
            reveal(Seq::filter);
            assert(next.drop_last() =~= prefix);
            assert(next.last() == lines@[i as int]@);
        }
        let keep = !should_delete_row(&lines[i], terms);
        if keep {
            let mut row: Vec<u8> = Vec::new();
            let line = &lines[i];
            let mut j: usize = 0;
            while j < line.len()
                invariant
                    j <= line@.len(),
                    row@ =~= line@.take(j as int),
                decreases line@.len() - j,
            {
                row.push(line[j]);
                j = j + 1;
            }
            proof {
                assert(row@ =~= line@);
            }
            out.push(row);
        }
        i = i + 1;
        proof {
            assert(views_of(out@) =~= next.filter(pred));
        }
    }
    proof {
        assert(views_of(lines@).take(lines@.len() as int) =~= views_of(lines@));
    }
    out
}

} // verus!
