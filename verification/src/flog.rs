use vstd::prelude::*;
use vstd::slice::slice_subrange;
use vstd::slice::slice_to_vec;

verus! {

/// A named class of log messages that can be switched on and off.
#[allow(non_camel_case_types)]
#[derive(Clone, Debug, PartialEq, Eq)]
pub struct category_t {
    pub name: Vec<char>,
    pub description: Vec<char>,
    pub enabled: bool,
}

/// The names of the categories of a table, in order.
pub open spec fn names_of(table: Seq<category_t>) -> Seq<Seq<char>> {
    table.map_values(|c: category_t| c.name@)
}

/// The patterns of a list, in order.
pub open spec fn patterns_of(list: Seq<Vec<char>>) -> Seq<Seq<char>> {
    list.map_values(|p: Vec<char>| p@)
}

/// A pattern matches a name where its characters match those of the name one
/// by one, `?` matching any character and `*` any run of characters.
pub open spec fn wildcard_matches(pattern: Seq<char>, name: Seq<char>) -> bool
    decreases pattern.len(), name.len(),
{
    if pattern.len() == 0 {
        name.len() == 0
    } else if pattern[0] == '*' {
        wildcard_matches(pattern.skip(1), name) || (name.len() > 0 && wildcard_matches(
            pattern,
            name.skip(1),
        ))
    } else {
        name.len() > 0 && (pattern[0] == '?' || pattern[0] == name[0]) && wildcard_matches(
            pattern.skip(1),
            name.skip(1),
        )
    }
}

/// The pattern matches one name of the list at least.
pub open spec fn matches_any(pattern: Seq<char>, names: Seq<Seq<char>>) -> bool {
    exists|i: int| 0 <= i < names.len() && wildcard_matches(pattern, #[trigger] names[i])
}

/// A pattern with each underscore turned into a dash.
pub open spec fn with_dashes(wc: Seq<char>) -> Seq<char> {
    Seq::new(wc.len(), |i: int| if wc[i] == '_' { '-' } else { wc[i] })
}

/// The place of the last comma, or -1 where there is none.
pub open spec fn last_comma(s: Seq<char>) -> int
    decreases s.len(),
{
    if s.len() == 0 {
        -1
    } else if s.last() == ',' {
        s.len() - 1
    } else {
        last_comma(s.drop_last())
    }
}

/// A piece that starts with a dash switches off, any other switches on.
pub open spec fn piece_sense(piece: Seq<char>) -> bool {
    !(piece.len() > 0 && piece[0] == '-')
}

/// The wildcard of a piece: the piece without the dash that switches off.
pub open spec fn piece_pattern(piece: Seq<char>) -> Seq<char> {
    if piece_sense(piece) {
        piece
    } else {
        piece.skip(1)
    }
}

/// Whether a category is enabled after one wildcard was applied.
pub open spec fn after_wildcard(
    pattern: Seq<char>,
    sense: bool,
    name: Seq<char>,
    enabled: bool,
) -> bool {
    if wildcard_matches(pattern, name) {
        sense
    } else {
        enabled
    }
}

/// Whether a category is enabled after the pieces between the commas of `wc`
/// were applied from left to right.
pub open spec fn after_pieces(wc: Seq<char>, name: Seq<char>, enabled: bool) -> bool
    decreases wc.len(),
{
    let k = last_comma(wc);
    let piece = wc.skip(k + 1);
    let before = if 0 <= k < wc.len() {
        after_pieces(wc.take(k), name, enabled)
    } else {
        enabled
    };
    after_wildcard(piece_pattern(piece), piece_sense(piece), name, before)
}

/// The wildcards among the pieces of `wc` that match no name, from left to
/// right.
pub open spec fn unmatched_pieces(wc: Seq<char>, names: Seq<Seq<char>>) -> Seq<Seq<char>>
    decreases wc.len(),
{
    let k = last_comma(wc);
    let piece = wc.skip(k + 1);
    let before = if 0 <= k < wc.len() {
        unmatched_pieces(wc.take(k), names)
    } else {
        Seq::empty()
    };
    if matches_any(piece_pattern(piece), names) {
        before
    } else {
        before.push(piece_pattern(piece))
    }
}

/// The last comma of a sequence is the comma after which none follows.
pub proof fn lemma_last_comma(s: Seq<char>, k: int)
    requires
        -1 <= k < s.len(),
        k >= 0 ==> s[k] == ',',
        forall|j: int| k < j < s.len() ==> s[j] != ',',
    ensures
        last_comma(s) == k,
    decreases s.len(),
{
    if s.len() > 0 && k < s.len() - 1 {
        lemma_last_comma(s.drop_last(), k);
    }
}

/// Tells whether `pattern` from `pi` on matches `name` from `ni` on.
fn wildcard_match_from(name: &[char], ni: usize, pattern: &[char], pi: usize) -> (r: bool)
    requires
        ni <= name.len(),
        pi <= pattern.len(),
    ensures
        r == wildcard_matches(pattern@.skip(pi as int), name@.skip(ni as int)),
    decreases pattern.len() - pi, name.len() - ni,
{
    let ghost p = pattern@.skip(pi as int);
    let ghost t = name@.skip(ni as int);
    if pi == pattern.len() {
        return ni == name.len();
    }
    assert(p.skip(1) =~= pattern@.skip(pi + 1));
    assert(ni < name.len() ==> t.skip(1) =~= name@.skip(ni + 1));
    let c: char = pattern[pi];
    if c == '*' {
        if wildcard_match_from(name, ni, pattern, pi + 1) {
            true
        } else if ni < name.len() {
            wildcard_match_from(name, ni + 1, pattern, pi)
        } else {
            false
        }
    } else if ni < name.len() && (c == '?' || c == name[ni]) {
        wildcard_match_from(name, ni + 1, pattern, pi + 1)
    } else {
        false
    }
}

/// Tells whether the wildcard `pattern` matches the whole of `name`.
pub fn wildcard_match(name: &[char], pattern: &[char]) -> (r: bool)
    ensures
        r == wildcard_matches(pattern@, name@),
{
    assert(pattern@.skip(0) =~= pattern@);
    assert(name@.skip(0) =~= name@);
    wildcard_match_from(name, 0, pattern, 0)
}

/// Sets every category whose name matches the wildcard to `sense`, and tells
/// whether any matched.
pub fn apply_one_wildcard(
    categories: &mut Vec<category_t>,
    wc: &[char],
    sense: bool,
) -> (found: bool)
    ensures
        final(categories).len() == old(categories).len(),
        forall|i: int|
            0 <= i < old(categories).len() ==> {
                &&& (#[trigger] final(categories)[i]).name == old(categories)[i].name
                &&& final(categories)[i].description == old(categories)[i].description
                &&& final(categories)[i].enabled == after_wildcard(
                    wc@,
                    sense,
                    old(categories)[i].name@,
                    old(categories)[i].enabled,
                )
            },
        found == matches_any(wc@, names_of(old(categories)@)),
{
    let ghost before = categories@;
    let ghost names = names_of(before);
    let n: usize = categories.len();
    let mut found: bool = false;
    let mut i: usize = 0;
    while i < n
        invariant
            i <= n,
            n == before.len(),
            categories.len() == n,
            names == names_of(before),
            forall|j: int|
                0 <= j < n ==> {
                    &&& (#[trigger] categories[j]).name == before[j].name
                    &&& categories[j].description == before[j].description
                },
            forall|j: int|
                0 <= j < i ==> (#[trigger] categories[j]).enabled == after_wildcard(
                    wc@,
                    sense,
                    before[j].name@,
                    before[j].enabled,
                ),
            forall|j: int| i <= j < n ==> (#[trigger] categories[j]).enabled == before[j].enabled,
            found == exists|j: int| 0 <= j < i && wildcard_matches(wc@, #[trigger] names[j]),
        decreases n - i,
    {
        assert(names[i as int] == before[i as int].name@);
        if wildcard_match(categories[i].name.as_slice(), wc) {
            categories[i].enabled = sense;
            found = true;
        }
        i += 1;
    }
    found
}

/// Switches categories on and off as a list of wildcards says. Underscores in
/// the list count as dashes. The list is cut at its commas, and the pieces are
/// applied from left to right: a piece that starts with a dash switches off
/// what the rest of it matches, any other switches on what it matches. What
/// comes back are the wildcards that matched no category.
pub fn activate_flog_categories_by_pattern(
    categories: &mut Vec<category_t>,
    wc_ptr: &[char],
) -> (unmatched: Vec<Vec<char>>)
    ensures
        final(categories).len() == old(categories).len(),
        forall|i: int|
            0 <= i < old(categories).len() ==> {
                &&& (#[trigger] final(categories)[i]).name == old(categories)[i].name
                &&& final(categories)[i].description == old(categories)[i].description
                &&& final(categories)[i].enabled == after_pieces(
                    with_dashes(wc_ptr@),
                    old(categories)[i].name@,
                    old(categories)[i].enabled,
                )
            },
        patterns_of(unmatched@) == unmatched_pieces(
            with_dashes(wc_ptr@),
            names_of(old(categories)@),
        ),
{
    let ghost before = categories@;
    let ghost names = names_of(before);
    let n: usize = wc_ptr.len();
    let mut wc: Vec<char> = Vec::new();
    let mut i: usize = 0;
    while i < n
        invariant
            i <= n,
            n == wc_ptr@.len(),
            wc@ == with_dashes(wc_ptr@).take(i as int),
        decreases n - i,
    {
        let c: char = wc_ptr[i];
        wc.push(if c == '_' { '-' } else { c });
        assert(wc@ =~= with_dashes(wc_ptr@).take(i + 1));
        i += 1;
    }
    assert(wc@ =~= with_dashes(wc_ptr@));
    let mut unmatched: Vec<Vec<char>> = Vec::new();
    let mut start: usize = 0;
    let mut pos: usize = 0;
    assert(patterns_of(unmatched@) =~= Seq::<Seq<char>>::empty());
    loop
        invariant_except_break
            forall|j: int|
                0 <= j < before.len() ==> {
                    &&& (#[trigger] categories[j]).name == before[j].name
                    &&& categories[j].description == before[j].description
                    &&& categories[j].enabled == if start > 0 {
                        after_pieces(wc@.take(start - 1), before[j].name@, before[j].enabled)
                    } else {
                        before[j].enabled
                    }
                },
            patterns_of(unmatched@) == if start > 0 {
                unmatched_pieces(wc@.take(start - 1), names)
            } else {
                Seq::<Seq<char>>::empty()
            },
        invariant
            start <= pos <= n,
            n == wc@.len(),
            categories.len() == before.len(),
            names == names_of(before),
            start > 0 ==> wc@[start - 1] == ',',
            forall|j: int| start <= j < pos ==> wc@[j] != ',',
        ensures
            categories.len() == before.len(),
            forall|j: int|
                0 <= j < before.len() ==> {
                    &&& (#[trigger] categories[j]).name == before[j].name
                    &&& categories[j].description == before[j].description
                    &&& categories[j].enabled == after_pieces(
                        wc@,
                        before[j].name@,
                        before[j].enabled,
                    )
                },
            patterns_of(unmatched@) == unmatched_pieces(wc@, names),
        decreases n - pos,
    {
        if pos == n || wc[pos] == ',' {
            let ghost prefix = wc@.take(pos as int);
            let ghost mid = categories@;
            let ghost listed = patterns_of(unmatched@);
            let piece: &[char] = slice_subrange(wc.as_slice(), start, pos);
            let sense: bool = !(piece.len() > 0 && piece[0] == '-');
            let pattern: &[char] = if sense {
                piece
            } else {
                slice_subrange(piece, 1, piece.len())
            };
            proof {
                lemma_last_comma(prefix, start - 1);
                assert(prefix.skip(start as int) =~= piece@);
                assert(start > 0 ==> prefix.take(start - 1) =~= wc@.take(start - 1));
                assert(pattern@ =~= piece_pattern(piece@));
                assert(names_of(mid) =~= names);
            }
            let found: bool = apply_one_wildcard(categories, pattern, sense);
            if !found {
                unmatched.push(slice_to_vec(pattern));
            }
            proof {
                assert(patterns_of(unmatched@) =~= if found {
                    listed
                } else {
                    listed.push(pattern@)
                });
                assert(patterns_of(unmatched@) == unmatched_pieces(prefix, names));
                assert forall|j: int| 0 <= j < before.len() implies (#[trigger] categories[j]).enabled
                    == after_pieces(prefix, before[j].name@, before[j].enabled) by {
                    assert(mid[j].name == before[j].name);
                }
            }
            if pos == n {
                assert(prefix =~= wc@);
                break ;
            }
            start = pos + 1;
        }
        pos += 1;
    }
    unmatched
}

} // verus!
