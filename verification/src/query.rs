//! The folding of a lower-cased text into a query fragment: spaces become
//! `+`, apostrophes go, and so does the three-character residue that a
//! wrongly decoded right single quote leaves behind.
use vstd::prelude::*;

verus! {

/// First character of the residue of a wrongly decoded right single quote.
pub const MARK_FIRST: char = '\u{e2}';

/// Second character of that residue.
pub const MARK_SECOND: char = '\u{20ac}';

/// Third character of that residue.
pub const MARK_THIRD: char = '\u{2122}';

/// `s` with every space replaced by `+`.
pub open spec fn join_spaces(s: Seq<char>) -> Seq<char> {
    Seq::new(
        s.len(),
        |i: int|
            if s[i] == ' ' {
                '+'
            } else {
                s[i]
            },
    )
}

/// `s` without its apostrophes.
pub open spec fn drop_apostrophes(s: Seq<char>) -> Seq<char>
    decreases s.len(),
{
    if s.len() == 0 {
        s
    } else if s.last() == '\'' {
        drop_apostrophes(s.drop_last())
    } else {
        drop_apostrophes(s.drop_last()).push(s.last())
    }
}

/// Whether `s` begins with the residue.
pub open spec fn starts_with_mark(s: Seq<char>) -> bool {
    s.len() >= 3 && s[0] == MARK_FIRST && s[1] == MARK_SECOND && s[2] == MARK_THIRD
}

/// Whether the residue occurs anywhere in `s`.
pub open spec fn has_mark(s: Seq<char>) -> bool {
    exists|i: int| 0 <= i <= s.len() && #[trigger] starts_with_mark(s.skip(i))
}

/// `s` without the occurrences of the residue, found from the left and not
/// overlapping.
pub open spec fn drop_marks(s: Seq<char>) -> Seq<char>
    decreases s.len(),
{
    if s.len() == 0 {
        s
    } else if starts_with_mark(s) {
        drop_marks(s.skip(3))
    } else {
        seq![s[0]] + drop_marks(s.skip(1))
    }
}

/// The query fragment of an already lower-cased text.
pub open spec fn folded(s: Seq<char>) -> Seq<char> {
    drop_marks(drop_apostrophes(join_spaces(s)))
}

/// Whether no character of `s` is a space or an apostrophe.
pub open spec fn is_joined(s: Seq<char>) -> bool {
    forall|i: int| 0 <= i < s.len() ==> s[i] != ' ' && s[i] != '\''
}

/// Replaces every space by `+`.
pub fn plus_for_spaces(s: &Vec<char>) -> (r: Vec<char>)
    ensures
        r@ == join_spaces(s@),
{
    let mut out: Vec<char> = Vec::new();
    let mut i: usize = 0;
    while i < s.len()
        invariant
            i <= s.len(),
            out@ == join_spaces(s@).take(i as int),
        decreases s.len() - i,
    {
        let c = s[i];
        out.push(if c == ' ' { '+' } else { c });
        assert(out@ =~= join_spaces(s@).take(i + 1));
        i += 1;
    }
    assert(out@ =~= join_spaces(s@));
    out
}

/// Removes every apostrophe.
pub fn without_apostrophes(s: &Vec<char>) -> (r: Vec<char>)
    ensures
        r@ == drop_apostrophes(s@),
{
    let mut out: Vec<char> = Vec::new();
    let mut i: usize = 0;
    while i < s.len()
        invariant
            i <= s.len(),
            out@ == drop_apostrophes(s@.take(i as int)),
        decreases s.len() - i,
    {
        let c = s[i];
        assert(s@.take(i + 1).drop_last() =~= s@.take(i as int));
        if c != '\'' {
            out.push(c);
        }
        i += 1;
    }
    assert(s@.take(s.len() as int) =~= s@);
    out
}

/// Removes every occurrence of the residue, scanning from the left.
pub fn without_marks(s: &Vec<char>) -> (r: Vec<char>)
    ensures
        r@ == drop_marks(s@),
{
    let mut out: Vec<char> = Vec::new();
    let mut i: usize = 0;
    assert(s@.skip(0) =~= s@);
    while i < s.len()
        invariant
            i <= s.len(),
            drop_marks(s@) == out@ + drop_marks(s@.skip(i as int)),
        decreases s.len() - i,
    {
        let ghost rest = s@.skip(i as int);
        if s.len() - i >= 3 && s[i] == MARK_FIRST && s[i + 1] == MARK_SECOND && s[i + 2]
            == MARK_THIRD {
            assert(starts_with_mark(rest));
            assert(rest.skip(3) =~= s@.skip(i + 3));
            i += 3;
        } else {
            assert(!starts_with_mark(rest));
            assert(rest.skip(1) =~= s@.skip(i + 1));
            let ghost before = out@;
            out.push(s[i]);
            assert(before + (seq![rest[0]] + drop_marks(rest.skip(1))) =~= out@ + drop_marks(
                rest.skip(1),
            ));
            i += 1;
        }
    }
    assert(out@ + drop_marks(s@.skip(i as int)) =~= out@);
    out
}

/// Tells whether the residue occurs anywhere in `s`.
pub fn contains_mark(s: &Vec<char>) -> (r: bool)
    ensures
        r == has_mark(s@),
{
    let mut i: usize = 0;
    while i < s.len() && s.len() - i >= 3
        invariant
            i <= s.len(),
            forall|k: int| 0 <= k < i ==> !starts_with_mark(#[trigger] s@.skip(k)),
        decreases s.len() - i,
    {
        if s[i] == MARK_FIRST && s[i + 1] == MARK_SECOND && s[i + 2] == MARK_THIRD {
            assert(starts_with_mark(s@.skip(i as int)));
            return true;
        }
        assert(!starts_with_mark(s@.skip(i as int)));
        i += 1;
    }
    assert forall|k: int| 0 <= k <= s.len() implies !starts_with_mark(#[trigger] s@.skip(k)) by {
        if k >= i {
            assert(s@.skip(k).len() < 3);
        }
    }
    false
}

/// Folds an already lower-cased text into its query fragment.
pub fn fold_query(s: &Vec<char>) -> (r: Vec<char>)
    ensures
        r@ == folded(s@),
{
    let joined = plus_for_spaces(s);
    let plain = without_apostrophes(&joined);
    without_marks(&plain)
}

/// Dropping apostrophes leaves no apostrophe, and brings in no space.
proof fn lemma_drop_apostrophes_joined(s: Seq<char>)
    requires
        forall|i: int| 0 <= i < s.len() ==> s[i] != ' ',
    ensures
        is_joined(drop_apostrophes(s)),
    decreases s.len(),
{
    if s.len() > 0 {
        lemma_drop_apostrophes_joined(s.drop_last());
    }
}

/// Dropping the residue keeps a text free of spaces and apostrophes.
proof fn lemma_drop_marks_joined(s: Seq<char>)
    requires
        is_joined(s),
    ensures
        is_joined(drop_marks(s)),
    decreases s.len(),
{
    if s.len() == 0 {
    } else if starts_with_mark(s) {
        lemma_drop_marks_joined(s.skip(3));
    } else {
        lemma_drop_marks_joined(s.skip(1));
    }
}

/// A text without apostrophes is left as it is.
proof fn lemma_drop_apostrophes_fixed(s: Seq<char>)
    requires
        is_joined(s),
    ensures
        drop_apostrophes(s) == s,
    decreases s.len(),
{
    if s.len() > 0 {
        lemma_drop_apostrophes_fixed(s.drop_last());
        assert(s.drop_last().push(s.last()) =~= s);
    }
}

/// A text in which the residue does not occur is left as it is.
proof fn lemma_drop_marks_fixed(s: Seq<char>)
    requires
        !has_mark(s),
    ensures
        drop_marks(s) == s,
    decreases s.len(),
{
    if s.len() > 0 {
        assert(s.skip(0) =~= s);
        assert(!starts_with_mark(s.skip(0)));
        assert forall|i: int| 0 <= i <= s.skip(1).len() implies !starts_with_mark(
            #[trigger] s.skip(1).skip(i),
        ) by {
            assert(s.skip(1).skip(i) =~= s.skip(i + 1));
        }
        lemma_drop_marks_fixed(s.skip(1));
        assert(seq![s[0]] + s.skip(1) =~= s);
    }
}

/// The fragment of any text holds no space and no apostrophe.
pub proof fn lemma_folded_joined(s: Seq<char>)
    ensures
        is_joined(folded(s)),
{
    lemma_drop_apostrophes_joined(join_spaces(s));
    lemma_drop_marks_joined(drop_apostrophes(join_spaces(s)));
}

/// Folding a fragment again changes nothing, provided that removing the
/// residue did not bring the parts of another occurrence together.
pub proof fn lemma_folded_idempotent(s: Seq<char>)
    requires
        !has_mark(folded(s)),
    ensures
        folded(folded(s)) == folded(s),
{
    let t = folded(s);
    lemma_folded_joined(s);
    assert(join_spaces(t) =~= t);
    lemma_drop_apostrophes_fixed(t);
    lemma_drop_marks_fixed(t);
}

/// Where the residue remains in a fragment, folding again shortens it: these
/// are the texts on which folding twice differs from folding once.
pub proof fn lemma_folded_shrinks(s: Seq<char>)
    requires
        has_mark(folded(s)),
    ensures
        folded(folded(s)).len() < folded(s).len(),
{
    let t = folded(s);
    lemma_folded_joined(s);
    assert(join_spaces(t) =~= t);
    lemma_drop_apostrophes_fixed(t);
    lemma_drop_marks_shrinks(t);
}

/// Dropping the residue never lengthens a text.
proof fn lemma_drop_marks_len(s: Seq<char>)
    ensures
        drop_marks(s).len() <= s.len(),
    decreases s.len(),
{
    if s.len() == 0 {
    } else if starts_with_mark(s) {
        lemma_drop_marks_len(s.skip(3));
    } else {
        lemma_drop_marks_len(s.skip(1));
    }
}

/// Dropping the residue from a text that holds it shortens the text.
proof fn lemma_drop_marks_shrinks(s: Seq<char>)
    requires
        has_mark(s),
    ensures
        drop_marks(s).len() < s.len(),
    decreases s.len(),
{
    let i = choose|i: int| 0 <= i <= s.len() && #[trigger] starts_with_mark(s.skip(i));
    if starts_with_mark(s) {
        lemma_drop_marks_len(s.skip(3));
    } else {
        assert(s.skip(0) =~= s);
        assert(i > 0);
        assert(s.skip(1).skip(i - 1) =~= s.skip(i));
        lemma_drop_marks_shrinks(s.skip(1));
    }
}

} // verus!
