//! Insertion-based character sorting: sorts the letters of each word in
//! place and the letters of the whole sentence, ordering characters by
//! their lowercase form.

use vstd::prelude::*;

verus! {

/// The sequence of characters that lowercasing `c` yields; it depends on
/// the character alone.
pub uninterp spec fn lowercase_of(c: char) -> Seq<char>;

/// Relies on char::to_lowercase: yields the lowercase mapping of the
/// character as one or more characters, a function of the character alone.
#[verifier::external_body]
fn to_lowercase_chars(c: char) -> (r: Vec<char>)
    ensures
        r@ == lowercase_of(c),
        r@.len() >= 1,
{
    c.to_lowercase().collect()
}

/// Relies on str::chars: the characters of the string, in order.
#[verifier::external_body]
fn string_to_chars(s: &String) -> (r: Vec<char>)
    ensures
        r@ == s@,
{
    s.chars().collect()
}

/// Relies on String's FromIterator: the string holding exactly these
/// characters, in order.
#[verifier::external_body]
fn chars_to_string(v: &Vec<char>) -> (r: String)
    ensures
        r@ == v@,
{
    v.iter().collect()
}

/// Lexicographic strictly-less on character sequences, comparing
/// characters by code point; the order `Iterator::cmp` induces.
pub open spec fn seq_lt(a: Seq<char>, b: Seq<char>) -> bool
    decreases a.len(),
{
    if b.len() == 0 {
        false
    } else if a.len() == 0 {
        true
    } else if a[0] != b[0] {
        (a[0] as u32) < (b[0] as u32)
    } else {
        seq_lt(a.drop_first(), b.drop_first())
    }
}

/// The sort key order: `a` before `b` when `a`'s lowercase form is
/// lexicographically less than `b`'s.
pub open spec fn key_lt(a: char, b: char) -> bool {
    seq_lt(lowercase_of(a), lowercase_of(b))
}

/// `s` with `c` inserted before the first position at or after `from`
/// whose character's key orders strictly after `c`'s; appended when there
/// is none.
pub open spec fn insert_by_key_from(s: Seq<char>, c: char, from: int) -> Seq<char>
    decreases s.len() - from,
{
    if from < 0 || from >= s.len() {
        s.push(c)
    } else if key_lt(c, s[from]) {
        s.insert(from, c)
    } else {
        insert_by_key_from(s, c, from + 1)
    }
}

/// `s` with `c` inserted at its sort position.
pub open spec fn insert_by_key(s: Seq<char>, c: char) -> Seq<char> {
    insert_by_key_from(s, c, 0)
}

/// `s` with `c` inserted before the first position at or after `from`
/// holding a space or a character whose key orders strictly after `c`'s;
/// appended when there is none.
pub open spec fn insert_in_word(s: Seq<char>, c: char, from: int) -> Seq<char>
    decreases s.len() - from,
{
    if from < 0 || from >= s.len() {
        s.push(c)
    } else if s[from] == ' ' || key_lt(c, s[from]) {
        s.insert(from, c)
    } else {
        insert_in_word(s, c, from + 1)
    }
}

/// The per-word sort state after consuming `input`: the accumulated text
/// and the position where its last word starts.
pub open spec fn words_state(input: Seq<char>) -> (Seq<char>, int)
    decreases input.len(),
{
    if input.len() == 0 {
        (Seq::<char>::empty(), 0int)
    } else {
        let prev = words_state(input.drop_last());
        let c = input.last();
        if c == ' ' {
            (prev.0.push(' '), prev.0.len() as int + 1)
        } else {
            (insert_in_word(prev.0, c, prev.1), prev.1)
        }
    }
}

/// The sentence with each word's characters sorted by lowercase key,
/// words kept in place.
pub open spec fn sorted_words_of(input: Seq<char>) -> Seq<char> {
    words_state(input).0
}

/// All non-space characters of the sentence, sorted by lowercase key.
pub open spec fn sorted_sentence_of(input: Seq<char>) -> Seq<char>
    decreases input.len(),
{
    if input.len() == 0 {
        Seq::<char>::empty()
    } else {
        let prev = sorted_sentence_of(input.drop_last());
        let c = input.last();
        if c == ' ' {
            prev
        } else {
            insert_by_key(prev, c)
        }
    }
}

/// Whether `a` orders strictly before `b` by lowercase lexicographic
/// comparison.
fn lower_less(a: char, b: char) -> (r: bool)
    ensures
        r == key_lt(a, b),
{
    let av = to_lowercase_chars(a);
    let bv = to_lowercase_chars(b);
    lex_less(&av, &bv)
}

/// Lexicographic strictly-less on character vectors.
fn lex_less(a: &Vec<char>, b: &Vec<char>) -> (r: bool)
    ensures
        r == seq_lt(a@, b@),
{
    let mut i: usize = 0;
    proof {
        assert(a@.skip(0) =~= a@);
        assert(b@.skip(0) =~= b@);
    }
    loop
        invariant
            i <= a@.len(),
            i <= b@.len(),
            seq_lt(a@, b@) == seq_lt(a@.skip(i as int), b@.skip(i as int)),
        decreases b@.len() - i,
    {
        if i >= b.len() {
            return false;
        }
        if i >= a.len() {
            return true;
        }
        let ac = a[i];
        let bc = b[i];
        if ac != bc {
            proof {
                assert(a@.skip(i as int)[0] == a@[i as int]);
                assert(b@.skip(i as int)[0] == b@[i as int]);
                assert(seq_lt(a@.skip(i as int), b@.skip(i as int)) == ((ac as u32) < (
                bc as u32)));
            }
            return (ac as u32) < (bc as u32);
        }
        proof {
            assert(a@.skip(i as int).drop_first() =~= a@.skip(i + 1));
            assert(b@.skip(i as int).drop_first() =~= b@.skip(i + 1));
        }
        i = i + 1;
    }
}

/// Inserts `character` into the word of `alphabetical_words` that starts
/// at `start_of_last_word`, keeping that word's characters sorted by
/// lowercase key.
pub fn sort_alpha_word(
    alphabetical_words: &mut Vec<char>,
    character: char,
    start_of_last_word: usize,
)
    requires
        start_of_last_word <= old(alphabetical_words)@.len(),
    ensures
        final(alphabetical_words)@ == insert_in_word(
            old(alphabetical_words)@,
            character,
            start_of_last_word as int,
        ),
{
    let ghost s0 = alphabetical_words@;
    let mut j: usize = start_of_last_word;
    while j < alphabetical_words.len()
        invariant
            s0 == old(alphabetical_words)@,
            start_of_last_word <= j <= s0.len(),
            alphabetical_words@ == s0,
            insert_in_word(s0, character, start_of_last_word as int) == insert_in_word(
                s0,
                character,
                j as int,
            ),
        decreases s0.len() - j,
    {
        let alpha_c = alphabetical_words[j];
        if alpha_c == ' ' || lower_less(character, alpha_c) {
            proof {
                assert(s0[j as int] == ' ' || key_lt(character, s0[j as int]));
                assert(insert_in_word(s0, character, j as int) == s0.insert(j as int, character));
            }
            alphabetical_words.insert(j, character);
            return ;
        }
        j = j + 1;
    }
    alphabetical_words.push(character);
}

/// Inserts `character` into `alphabetical_sentence` at its sort position
/// by lowercase key.
pub fn sort_alpha_sentence(alphabetical_sentence: &mut Vec<char>, character: char)
    ensures
        final(alphabetical_sentence)@ == insert_by_key(old(alphabetical_sentence)@, character),
{
    let ghost s0 = alphabetical_sentence@;
    let mut j: usize = 0;
    while j < alphabetical_sentence.len()
        invariant
            s0 == old(alphabetical_sentence)@,
            j <= s0.len(),
            alphabetical_sentence@ == s0,
            insert_by_key(s0, character) == insert_by_key_from(s0, character, j as int),
        decreases s0.len() - j,
    {
        let alpha_c = alphabetical_sentence[j];
        if lower_less(character, alpha_c) {
            proof {
                assert(key_lt(character, s0[j as int]));
                assert(insert_by_key_from(s0, character, j as int) == s0.insert(
                    j as int,
                    character,
                ));
            }
            alphabetical_sentence.insert(j, character);
            return ;
        }
        j = j + 1;
    }
    alphabetical_sentence.push(character);
}

/// Sorts `input` twice over: the first result sorts each word's letters in
/// place (spaces keep the words apart), the second sorts every non-space
/// character of the whole sentence; both order characters by their
/// lowercase form.
pub fn sort(input: &String) -> (r: (String, String))
    ensures
        r.0@ == sorted_words_of(input@),
        r.1@ == sorted_sentence_of(input@),
{
    let chars = string_to_chars(input);
    let mut start_of_last_word: usize = 0;
    let mut alphabetical_words: Vec<char> = Vec::new();
    let mut alphabetical_sentence: Vec<char> = Vec::new();
    let mut i: usize = 0;
    proof {
        assert(input@.take(0) =~= Seq::<char>::empty());
    }
    while i < chars.len()
        invariant
            i <= chars@.len(),
            chars@ == input@,
            start_of_last_word <= alphabetical_words@.len(),
            alphabetical_words@ == words_state(input@.take(i as int)).0,
            start_of_last_word as int == words_state(input@.take(i as int)).1,
            alphabetical_sentence@ == sorted_sentence_of(input@.take(i as int)),
        decreases chars@.len() - i,
    {
        let character = chars[i];
        proof {
            assert(input@.take(i + 1).drop_last() =~= input@.take(i as int));
            assert(input@.take(i + 1).last() == input@[i as int]);
        }
        if character == ' ' {
            alphabetical_words.push(' ');
            start_of_last_word = alphabetical_words.len();
        } else {
            let ghost w0 = alphabetical_words@;
            sort_alpha_word(&mut alphabetical_words, character, start_of_last_word);
            proof {
                lemma_insert_in_word_len(w0, character, start_of_last_word as int);
            }
            sort_alpha_sentence(&mut alphabetical_sentence, character);
        }
        i = i + 1;
    }
    proof {
        assert(input@.take(input@.len() as int) =~= input@);
    }
    (chars_to_string(&alphabetical_words), chars_to_string(&alphabetical_sentence))
}

/// Inserting a character grows the text by exactly one.
proof fn lemma_insert_in_word_len(s: Seq<char>, c: char, from: int)
    ensures
        insert_in_word(s, c, from).len() == s.len() + 1,
    decreases s.len() - from,
{
    if from < 0 || from >= s.len() {
    } else if s[from] == ' ' || key_lt(c, s[from]) {
    } else {
        lemma_insert_in_word_len(s, c, from + 1);
    }
}

/// Sortedness by lowercase key: no character orders strictly before an
/// earlier one.
pub open spec fn sorted_by_key(s: Seq<char>) -> bool {
    forall|i: int, j: int| #![trigger s[i], s[j]] 0 <= i < j < s.len() ==> !key_lt(s[j], s[i])
}

/// The non-space characters of `input`, in order.
pub open spec fn nonspace_chars(input: Seq<char>) -> Seq<char>
    decreases input.len(),
{
    if input.len() == 0 {
        Seq::<char>::empty()
    } else if input.last() == ' ' {
        nonspace_chars(input.drop_last())
    } else {
        nonspace_chars(input.drop_last()).push(input.last())
    }
}

/// The lexicographic order is asymmetric.
proof fn lemma_seq_lt_asymmetric(a: Seq<char>, b: Seq<char>)
    requires
        seq_lt(a, b),
    ensures
        !seq_lt(b, a),
    decreases a.len(),
{
    if b.len() == 0 || a.len() == 0 || a[0] != b[0] {
    } else {
        lemma_seq_lt_asymmetric(a.drop_first(), b.drop_first());
    }
}

/// The lexicographic order is transitive.
proof fn lemma_seq_lt_transitive(a: Seq<char>, b: Seq<char>, c: Seq<char>)
    requires
        seq_lt(a, b),
        seq_lt(b, c),
    ensures
        seq_lt(a, c),
    decreases a.len(),
{
    if c.len() == 0 || b.len() == 0 || a.len() == 0 {
    } else if a[0] == b[0] && b[0] == c[0] {
        lemma_seq_lt_transitive(a.drop_first(), b.drop_first(), c.drop_first());
    }
}

/// Inserting into a key-sorted text whose scanned prefix does not order
/// after `c` keeps it key-sorted.
proof fn lemma_insert_from_sorted(s: Seq<char>, c: char, from: int)
    requires
        sorted_by_key(s),
        0 <= from <= s.len(),
        forall|j: int| 0 <= j < from ==> !key_lt(c, #[trigger] s[j]),
    ensures
        sorted_by_key(insert_by_key_from(s, c, from)),
    decreases s.len() - from,
{
    if from >= s.len() {
        let t = s.push(c);
        assert forall|i: int, j: int| 0 <= i < j < t.len() implies !key_lt(t[j], t[i]) by {
            assert(t[i] == s[i]);
            if j < s.len() {
                assert(t[j] == s[j]);
            } else {
                assert(t[j] == c);
            }
        }
    } else if key_lt(c, s[from]) {
        let t = s.insert(from, c);
        s.insert_ensures(from, c);
        assert forall|i: int, j: int| 0 <= i < j < t.len() implies !key_lt(t[j], t[i]) by {
            if j < from {
                assert(t[i] == s[i] && t[j] == s[j]);
            } else if i < from && j == from {
                assert(t[i] == s[i] && t[j] == c);
            } else if i < from && j > from {
                assert(t[i] == s[i] && t[(j - 1) + 1] == s[j - 1]);
            } else if i == from {
                assert(t[i] == c && t[(j - 1) + 1] == s[j - 1]);
                if key_lt(s[j - 1], c) {
                    lemma_seq_lt_transitive(
                        lowercase_of(s[j - 1]),
                        lowercase_of(c),
                        lowercase_of(s[from]),
                    );
                    if j - 1 == from {
                        lemma_seq_lt_asymmetric(lowercase_of(s[from]), lowercase_of(s[from]));
                    }
                }
            } else {
                assert(t[(i - 1) + 1] == s[i - 1] && t[(j - 1) + 1] == s[j - 1]);
            }
        }
    } else {
        lemma_insert_from_sorted(s, c, from + 1);
    }
}

/// Inserting into the text adds exactly `c` to its characters.
proof fn lemma_insert_from_multiset(s: Seq<char>, c: char, from: int)
    requires
        0 <= from <= s.len(),
    ensures
        insert_by_key_from(s, c, from).to_multiset() == s.to_multiset().insert(c),
    decreases s.len() - from,
{
    broadcast use vstd::seq_lib::group_to_multiset_ensures;
    broadcast use vstd::multiset::group_multiset_axioms;

    if from >= s.len() {
    } else if key_lt(c, s[from]) {
        let s1 = s.subrange(0, from);
        let s2 = s.subrange(from, s.len() as int);
        vstd::seq_lib::lemma_multiset_commutative(s1.push(c), s2);
        vstd::seq_lib::lemma_multiset_commutative(s1, s2);
        assert(s1 + s2 =~= s);
        assert(insert_by_key_from(s, c, from).to_multiset() =~= s.to_multiset().insert(c));
    } else {
        lemma_insert_from_multiset(s, c, from + 1);
    }
}

/// Sorting law: the sentence output is sorted by lowercase key.
pub proof fn lemma_sentence_sorted(input: Seq<char>)
    ensures
        sorted_by_key(sorted_sentence_of(input)),
    decreases input.len(),
{
    if input.len() == 0 {
    } else {
        lemma_sentence_sorted(input.drop_last());
        if input.last() == ' ' {
        } else {
            lemma_insert_from_sorted(sorted_sentence_of(input.drop_last()), input.last(), 0);
        }
    }
}

/// Permutation law: the sentence output holds exactly the non-space
/// characters of the input, each as often as it occurs.
pub proof fn lemma_sentence_permutation(input: Seq<char>)
    ensures
        sorted_sentence_of(input).to_multiset() == nonspace_chars(input).to_multiset(),
    decreases input.len(),
{
    broadcast use vstd::seq_lib::group_to_multiset_ensures;
    broadcast use vstd::multiset::group_multiset_axioms;

    if input.len() == 0 {
    } else {
        lemma_sentence_permutation(input.drop_last());
        let c = input.last();
        let prev = sorted_sentence_of(input.drop_last());
        let fprev = nonspace_chars(input.drop_last());
        if c == ' ' {
        } else {
            lemma_insert_from_multiset(prev, c, 0);
            assert(nonspace_chars(input) == fprev.push(c));
            assert(sorted_sentence_of(input).to_multiset() =~= nonspace_chars(
                input,
            ).to_multiset());
        }
    }
}

} // verus!
