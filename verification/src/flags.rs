//! Flags in question text: a variable's name between two flag characters.

use vstd::prelude::*;
use vstd::utf8::{encode_utf8, encode_utf8_decode_utf8};
use crate::global::EngineError;

verus! {

/// How often `flag` stands in `text`.
pub open spec fn flag_count(text: Seq<char>, flag: char) -> nat
    decreases text.len(),
{
    if text.len() == 0 {
        0
    } else if text.last() == flag {
        flag_count(text.drop_last(), flag) + 1
    } else {
        flag_count(text.drop_last(), flag)
    }
}

/// The pieces into which `text` falls when it is cut at every `flag`.
/// There is one piece more than there are flags, and a piece may be empty.
pub open spec fn split_at_flags(text: Seq<char>, flag: char) -> Seq<Seq<char>>
    decreases text.len(),
{
    if text.len() == 0 {
        seq![Seq::empty()]
    } else {
        let before = split_at_flags(text.drop_last(), flag);
        if text.last() == flag {
            before.push(Seq::empty())
        } else {
            before.drop_last().push(before.last().push(text.last()))
        }
    }
}

/// The pieces of `text` that stand behind an opening flag: every second
/// piece, starting with the second.
pub open spec fn flagged_pieces(text: Seq<char>, flag: char) -> Seq<Seq<char>> {
    let pieces = split_at_flags(text, flag);
    Seq::new((pieces.len() / 2) as nat, |i: int| pieces[2 * i + 1])
}

/// Every opening flag in `text` has its closing flag, and there is a name
/// between each such pair.
pub open spec fn well_flagged(text: Seq<char>, flag: char) -> bool {
    &&& flag_count(text, flag) % 2 == 0
    &&& forall|i: int|
        0 <= i < flagged_pieces(text, flag).len() ==> (#[trigger] flagged_pieces(
            text,
            flag,
        )[i]).len() > 0
}

/// The lexicographic order of byte sequences: the first byte in which two
/// sequences differ decides, and a proper prefix stands before the longer
/// sequence.
pub open spec fn bytes_less(a: Seq<u8>, b: Seq<u8>) -> bool
    decreases a.len(),
{
    if b.len() == 0 {
        false
    } else if a.len() == 0 {
        true
    } else if a[0] != b[0] {
        a[0] < b[0]
    } else {
        bytes_less(a.drop_first(), b.drop_first())
    }
}

/// The order of strings: the lexicographic order of their UTF-8 bytes,
/// which is the order of `String`.
pub open spec fn lex_less(a: Seq<char>, b: Seq<char>) -> bool {
    bytes_less(encode_utf8(a), encode_utf8(b))
}

/// The strings of `names` as sequences of characters.
pub open spec fn name_views(names: Seq<String>) -> Seq<Seq<char>> {
    names.map_values(|name: String| name@)
}

/// Each of `names` stands before all that follow it, so none occurs twice.
pub open spec fn ascending(names: Seq<Seq<char>>) -> bool {
    forall|i: int, j: int|
        0 <= i < j < names.len() ==> lex_less(#[trigger] names[i], #[trigger] names[j])
}

/// The names that `text` refers to: what stands between its flags, each
/// name once, in ascending order.
pub open spec fn referenced_names(text: Seq<char>) -> Seq<Seq<char>> {
    choose|names: Seq<Seq<char>>|
        ascending(names) && names.to_set() == flagged_pieces(text, crate::FLAG).to_set()
}

/// The text that refers to the variable `name`: the name between two flags.
pub open spec fn flagged(name: Seq<char>) -> Seq<char> {
    seq![crate::FLAG] + name + seq![crate::FLAG]
}

/// `lib_utils::utilities::util_flaggedtxt_2vec` trims white space from both
/// ends of the text, cuts the rest at every flag and returns every second
/// piece, starting with the second.  The flag of this library is no white
/// space, so with an even number of flags the trimming only touches the first
/// and the last piece, neither of which is returned: the result is every
/// second piece of the untrimmed text.
pub assume_specification<'a>[ lib_utils::utilities::util_flaggedtxt_2vec ](
    txtstr: &'a String,
    flag: char,
) -> (between: Vec<&'a str>)
    requires
        flag == crate::FLAG,
        flag_count(txtstr@, flag) % 2 == 0,
    ensures
        between@.len() == flagged_pieces(txtstr@, flag).len(),
        forall|i: int|
            0 <= i < between@.len() ==> (#[trigger] between@[i])@ == flagged_pieces(
                txtstr@,
                flag,
            )[i],
;

/// No sequence of bytes stands before itself.
pub proof fn lemma_bytes_less_irreflexive(a: Seq<u8>)
    ensures
        !bytes_less(a, a),
    decreases a.len(),
{
    if a.len() > 0 {
        lemma_bytes_less_irreflexive(a.drop_first());
    }
}

/// The order of byte sequences is transitive.
pub proof fn lemma_bytes_less_transitive(a: Seq<u8>, b: Seq<u8>, c: Seq<u8>)
    requires
        bytes_less(a, b),
        bytes_less(b, c),
    ensures
        bytes_less(a, c),
    decreases a.len(),
{
    if a.len() > 0 && a[0] == b[0] && b[0] == c[0] {
        lemma_bytes_less_transitive(a.drop_first(), b.drop_first(), c.drop_first());
    }
}

/// Of two different sequences of bytes one stands before the other.
pub proof fn lemma_bytes_less_total(a: Seq<u8>, b: Seq<u8>)
    requires
        a != b,
    ensures
        bytes_less(a, b) || bytes_less(b, a),
    decreases a.len(),
{
    if a.len() > 0 && b.len() > 0 && a[0] == b[0] {
        assert(a.drop_first() != b.drop_first()) by {
            if a.drop_first() == b.drop_first() {
                assert(a =~= seq![a[0]] + a.drop_first());
                assert(b =~= seq![b[0]] + b.drop_first());
            }
        }
        lemma_bytes_less_total(a.drop_first(), b.drop_first());
    } else if a.len() == 0 && b.len() == 0 {
        assert(a =~= b);
    }
}

/// No string stands before itself.
pub proof fn lemma_lex_less_irreflexive(a: Seq<char>)
    ensures
        !lex_less(a, a),
{
    lemma_bytes_less_irreflexive(encode_utf8(a));
}

/// If `a` stands before `b` and `b` before `c`, then `a` stands before `c`.
pub proof fn lemma_lex_less_transitive(a: Seq<char>, b: Seq<char>, c: Seq<char>)
    requires
        lex_less(a, b),
        lex_less(b, c),
    ensures
        lex_less(a, c),
{
    lemma_bytes_less_transitive(encode_utf8(a), encode_utf8(b), encode_utf8(c));
}

/// Of two different strings one stands before the other.
pub proof fn lemma_lex_less_total(a: Seq<char>, b: Seq<char>)
    requires
        a != b,
    ensures
        lex_less(a, b) || lex_less(b, a),
{
    encode_utf8_decode_utf8(a);
    encode_utf8_decode_utf8(b);
    lemma_bytes_less_total(encode_utf8(a), encode_utf8(b));
}

/// Whether `a` stands before `b` in the order of strings.
pub fn comes_before(a: &str, b: &str) -> (before: bool)
    ensures
        before == lex_less(a@, b@),
{
    let left = a.as_bytes();
    let right = b.as_bytes();
    let mut at: usize = 0;
    proof {
        assert(left@.skip(0) =~= left@);
        assert(right@.skip(0) =~= right@);
    }
    while at < left.len() && at < right.len()
        invariant
            left@ == encode_utf8(a@),
            right@ == encode_utf8(b@),
            at <= left@.len(),
            at <= right@.len(),
            bytes_less(left@, right@) == bytes_less(left@.skip(at as int), right@.skip(at as int)),
        decreases left@.len() - at,
    {
        proof {
            assert(left@.skip(at as int)[0] == left@[at as int]);
            assert(right@.skip(at as int)[0] == right@[at as int]);
            assert(left@.skip(at as int).drop_first() =~= left@.skip(at + 1));
            assert(right@.skip(at as int).drop_first() =~= right@.skip(at + 1));
        }
        if left[at] != right[at] {
            return left[at] < right[at];
        }
        at = at + 1;
    }
    at < right.len()
}

/// Counts the flags in `text`.
pub fn count_flags(text: &str, flag: char) -> (count: usize)
    ensures
        count == flag_count(text@, flag),
{
    broadcast use vstd::string::group_string_axioms;
    let length: usize = text.unicode_len();
    let mut count: usize = 0;
    for c in it: text.chars()
        invariant
            it.seq() == text@,
            length == text@.len(),
            count == flag_count(text@.take(it.index()), flag),
            count <= it.index(),
    {
        proof {
            let k = it.index();
            assert(text@.take(k + 1).drop_last() =~= text@.take(k));
        }
        if c == flag {
            count = count + 1;
        }
    }
    proof {
        assert(text@.take(text@.len() as int) =~= text@);
    }
    count
}

/// A text falls into one piece more than it has flags.
pub proof fn lemma_split_len(text: Seq<char>, flag: char)
    ensures
        split_at_flags(text, flag).len() == flag_count(text, flag) + 1,
    decreases text.len(),
{
    if text.len() > 0 {
        lemma_split_len(text.drop_last(), flag);
    }
}

/// Text without a flag is one piece.
pub proof fn lemma_split_without_flag(text: Seq<char>, flag: char)
    requires
        !text.contains(flag),
    ensures
        split_at_flags(text, flag) == seq![text],
        flag_count(text, flag) == 0,
    decreases text.len(),
{
    if text.len() == 0 {
        assert(text =~= Seq::empty());
    } else {
        let shorter = text.drop_last();
        assert(text[text.len() - 1] != flag);
        assert forall|i: int| 0 <= i < shorter.len() implies shorter[i] != flag by {
            assert(shorter[i] == text[i]);
        }
        lemma_split_without_flag(shorter, flag);
        assert(shorter.push(text.last()) =~= text);
        assert(seq![shorter].drop_last().push(shorter.push(text.last())) =~= seq![text]);
    }
}

/// Text without a flag, put behind a text, lengthens the last piece of
/// that text.
pub proof fn lemma_split_append(text: Seq<char>, tail: Seq<char>, flag: char)
    requires
        !tail.contains(flag),
    ensures
        split_at_flags(text, flag).len() > 0,
        split_at_flags(text + tail, flag) == split_at_flags(text, flag).drop_last().push(
            split_at_flags(text, flag).last() + tail,
        ),
        flag_count(text + tail, flag) == flag_count(text, flag),
    decreases tail.len(),
{
    let pieces = split_at_flags(text, flag);
    lemma_split_len(text, flag);
    if tail.len() == 0 {
        assert(text + tail =~= text);
        assert(pieces.last() + tail =~= pieces.last());
        assert(pieces.drop_last().push(pieces.last()) =~= pieces);
    } else {
        let shorter = tail.drop_last();
        assert(tail[tail.len() - 1] != flag);
        assert forall|i: int| 0 <= i < shorter.len() implies shorter[i] != flag by {
            assert(shorter[i] == tail[i]);
        }
        lemma_split_append(text, shorter, flag);
        assert((text + tail).drop_last() =~= text + shorter);
        assert((text + tail).last() == tail.last());
        let before = split_at_flags(text + shorter, flag);
        assert(before.last().push(tail.last()) =~= pieces.last() + tail);
        assert(before.drop_last() =~= pieces.drop_last());
    }
}

/// A text that holds one name between flags, and no other flag, refers
/// to that name and to nothing else.
pub proof fn lemma_one_flagged_name(before: Seq<char>, name: Seq<char>, after: Seq<char>)
    requires
        !before.contains(crate::FLAG),
        !name.contains(crate::FLAG),
        !after.contains(crate::FLAG),
        name.len() > 0,
    ensures
        well_flagged(before + flagged(name) + after, crate::FLAG),
        flagged_pieces(before + flagged(name) + after, crate::FLAG) == seq![name],
        referenced_names(before + flagged(name) + after) == seq![name],
{
    let flag = crate::FLAG;
    let opened = before + seq![flag];
    let named = opened + name;
    let closed = named + seq![flag];
    let text = closed + after;
    assert(text =~= before + flagged(name) + after);
    lemma_split_without_flag(before, flag);
    assert(opened.drop_last() =~= before);
    assert(split_at_flags(opened, flag) =~= seq![before, Seq::empty()]);
    lemma_split_append(opened, name, flag);
    assert(Seq::<char>::empty() + name =~= name);
    assert(split_at_flags(named, flag) =~= seq![before, name]);
    assert(closed.drop_last() =~= named);
    assert(split_at_flags(closed, flag) =~= seq![before, name, Seq::empty()]);
    lemma_split_append(closed, after, flag);
    assert(Seq::<char>::empty() + after =~= after);
    assert(split_at_flags(text, flag) =~= seq![before, name, after]);
    assert(flagged_pieces(text, flag) =~= seq![name]);
    assert(ascending(seq![name]));
    lemma_ascending_unique(referenced_names(text), seq![name]);
}

/// Where a part of a text without flags gives way to a variable's name
/// between flags, the new text refers to that variable and to nothing
/// else.
pub proof fn lemma_inserted_name_is_found(text: Seq<char>, from: int, to: int, name: Seq<char>)
    requires
        !text.contains(crate::FLAG),
        !name.contains(crate::FLAG),
        name.len() > 0,
        0 <= from <= to <= text.len(),
    ensures
        referenced_names(
            text.subrange(0, from) + flagged(name) + text.subrange(to, text.len() as int),
        ) == seq![name],
{
    let before = text.subrange(0, from);
    let after = text.subrange(to, text.len() as int);
    assert forall|i: int| 0 <= i < before.len() implies before[i] != crate::FLAG by {
        assert(before[i] == text[i]);
    }
    assert forall|i: int| 0 <= i < after.len() implies after[i] != crate::FLAG by {
        assert(after[i] == text[to + i]);
    }
    lemma_one_flagged_name(before, name, after);
}

/// In an ascending sequence no name occurs twice.
pub proof fn lemma_ascending_no_duplicates(names: Seq<Seq<char>>)
    requires
        ascending(names),
    ensures
        names.no_duplicates(),
{
    assert forall|i: int, j: int|
        0 <= i < names.len() && 0 <= j < names.len() && i != j implies names[i] != names[j] by {
        lemma_lex_less_irreflexive(names[i]);
        if i < j {
            assert(lex_less(names[i], names[j]));
        } else {
            assert(lex_less(names[j], names[i]));
        }
    }
}

/// Two ascending sequences of the same names are the same sequence.
pub proof fn lemma_ascending_unique(a: Seq<Seq<char>>, b: Seq<Seq<char>>)
    requires
        ascending(a),
        ascending(b),
        a.to_set() == b.to_set(),
    ensures
        a == b,
    decreases a.len(),
{
    if a.len() == 0 {
        if b.len() > 0 {
            assert(b.to_set().contains(b[0]));
            assert(a.contains(b[0]));
        }
        assert(a =~= b);
    } else {
        assert(a.to_set().contains(a[0]));
        assert(b.contains(a[0]));
        let j = choose|j: int| 0 <= j < b.len() && b[j] == a[0];
        assert(b.to_set().contains(b[0]));
        assert(a.contains(b[0]));
        let i = choose|i: int| 0 <= i < a.len() && a[i] == b[0];
        if a[0] != b[0] {
            assert(lex_less(b[0], b[j]));
            assert(lex_less(a[0], a[i]));
            lemma_lex_less_transitive(a[0], b[0], a[0]);
            lemma_lex_less_irreflexive(a[0]);
        }
        let ra = a.drop_first();
        let rb = b.drop_first();
        assert(ascending(ra)) by {
            assert forall|x: int, y: int| 0 <= x < y < ra.len() implies lex_less(
                #[trigger] ra[x],
                #[trigger] ra[y],
            ) by {
                assert(ra[x] == a[x + 1] && ra[y] == a[y + 1]);
            }
        }
        assert(ascending(rb)) by {
            assert forall|x: int, y: int| 0 <= x < y < rb.len() implies lex_less(
                #[trigger] rb[x],
                #[trigger] rb[y],
            ) by {
                assert(rb[x] == b[x + 1] && rb[y] == b[y + 1]);
            }
        }
        assert(ra.to_set() =~= rb.to_set()) by {
            assert forall|n: Seq<char>| ra.contains(n) <==> rb.contains(n) by {
                if ra.contains(n) {
                    let x = choose|x: int| 0 <= x < ra.len() && ra[x] == n;
                    assert(a[x + 1] == n);
                    assert(lex_less(a[0], a[x + 1]));
                    assert(a.to_set().contains(n));
                    assert(b.contains(n));
                    let y = choose|y: int| 0 <= y < b.len() && b[y] == n;
                    if y == 0 {
                        lemma_lex_less_irreflexive(n);
                    }
                    assert(rb[y - 1] == n);
                }
                if rb.contains(n) {
                    let y = choose|y: int| 0 <= y < rb.len() && rb[y] == n;
                    assert(b[y + 1] == n);
                    assert(lex_less(b[0], b[y + 1]));
                    assert(b.to_set().contains(n));
                    assert(a.contains(n));
                    let x = choose|x: int| 0 <= x < a.len() && a[x] == n;
                    if x == 0 {
                        lemma_lex_less_irreflexive(n);
                    }
                    assert(ra[x - 1] == n);
                }
            }
        }
        lemma_ascending_unique(ra, rb);
        assert(a =~= seq![a[0]] + ra);
        assert(b =~= seq![b[0]] + rb);
    }
}

/// Puts `name` at its place in the ascending `names`, unless it is there already.
pub fn insert_distinct(names: &mut Vec<String>, name: String)
    requires
        ascending(name_views(old(names)@)),
    ensures
        ascending(name_views(final(names)@)),
        name_views(final(names)@).to_set() == name_views(old(names)@).to_set().insert(name@),
{
    let ghost before = name_views(names@);
    let mut at: usize = 0;
    while at < names.len() && comes_before(names[at].as_str(), name.as_str())
        invariant
            name_views(names@) == before,
            at <= names.len(),
            forall|i: int| 0 <= i < at ==> lex_less(#[trigger] before[i], name@),
        decreases names.len() - at,
    {
        at = at + 1;
    }
    if at < names.len() && names[at] == name {
        proof {
            assert(before[at as int] == name@);
            assert(before.to_set() =~= before.to_set().insert(name@));
        }
    } else {
        proof {
            if at < before.len() {
                lemma_lex_less_total(name@, before[at as int]);
            }
            assert forall|j: int| at <= j < before.len() implies lex_less(
                name@,
                #[trigger] before[j],
            ) by {
                if j > at {
                    lemma_lex_less_transitive(name@, before[at as int], before[j]);
                }
            }
        }
        names.insert(at, name);
        proof {
            let after = name_views(names@);
            assert(after =~= before.insert(at as int, name@));
            assert forall|i: int, j: int| 0 <= i < j < after.len() implies lex_less(
                #[trigger] after[i],
                #[trigger] after[j],
            ) by {
                let bi = if i < at { i } else { i - 1 };
                let bj = if j < at { j } else { j - 1 };
                if i != at && j != at {
                    assert(after[i] == before[bi]);
                    assert(after[j] == before[bj]);
                }
            }
            assert forall|n: Seq<char>|
                after.contains(n) <==> (before.contains(n) || n == name@) by {
                if after.contains(n) {
                    let i = choose|i: int| 0 <= i < after.len() && after[i] == n;
                    if i < at {
                        assert(before[i] == n);
                    } else if i > at {
                        assert(before[i - 1] == n);
                    }
                }
                if before.contains(n) {
                    let i = choose|i: int| 0 <= i < before.len() && before[i] == n;
                    if i < at {
                        assert(after[i] == n);
                    } else {
                        assert(after[i + 1] == n);
                    }
                }
                if n == name@ {
                    assert(after[at as int] == n);
                }
            }
            assert(after.to_set() =~= before.to_set().insert(name@));
        }
    }
}

/// The names that `qtext` holds between flags, each once, in ascending order.
///
/// Fails with `InvalidReference` where a flag is left without its partner
/// or a pair of flags has nothing between them.
pub fn flagged_names(qtext: &String) -> (found: Result<Vec<String>, EngineError>)
    ensures
        found is Ok <==> well_flagged(qtext@, crate::FLAG),
        found matches Err(error) ==> error == EngineError::InvalidReference,
        found matches Ok(names) ==> {
            &&& ascending(name_views(names@))
            &&& name_views(names@).to_set() == flagged_pieces(qtext@, crate::FLAG).to_set()
            &&& name_views(names@) == referenced_names(qtext@)
            &&& name_views(names@).no_duplicates()
        },
{
    if count_flags(qtext.as_str(), crate::FLAG) % 2 != 0 {
        return Err(EngineError::InvalidReference);
    }
    let between = lib_utils::utilities::util_flaggedtxt_2vec(qtext, crate::FLAG);
    let ghost pieces = flagged_pieces(qtext@, crate::FLAG);
    let mut names: Vec<String> = Vec::new();
    let mut i: usize = 0;
    while i < between.len()
        invariant
            i <= between.len(),
            pieces == flagged_pieces(qtext@, crate::FLAG),
            flag_count(qtext@, crate::FLAG) % 2 == 0,
            between@.len() == pieces.len(),
            forall|k: int|
                0 <= k < between@.len() ==> (#[trigger] between@[k])@ == pieces[k],
            forall|k: int| 0 <= k < i ==> (#[trigger] pieces[k]).len() > 0,
            ascending(name_views(names@)),
            name_views(names@).to_set() == pieces.take(i as int).to_set(),
        decreases between.len() - i,
    {
        let piece: &str = between[i];
        if piece.is_empty() {
            return Err(EngineError::InvalidReference);
        }
        insert_distinct(&mut names, String::from_str(piece));
        proof {
            assert(pieces.take(i + 1) =~= pieces.take(i as int).push(pieces[i as int]));
            pieces.take(i as int).lemma_push_to_set_commute(pieces[i as int]);
        }
        i = i + 1;
    }
    proof {
        assert(pieces.take(between.len() as int) =~= pieces);
        lemma_ascending_unique(name_views(names@), referenced_names(qtext@));
        lemma_ascending_no_duplicates(name_views(names@));
    }
    Ok(names)
}

} // verus!
