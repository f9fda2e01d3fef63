//! Text primitives shared by the tokenizer and the world registry:
//! trimming, splitting on single spaces, joining, and case folding.

use vstd::prelude::*;
use vstd::string::*;

verus! {

/// The lowercase form of a text, as `str::to_lowercase` computes it.
pub uninterp spec fn lowercase_of(s: Seq<char>) -> Seq<char>;

/// Whether a character has the Unicode `White_Space` property, as
/// `char::is_whitespace` reports it.
pub uninterp spec fn is_white_space(c: char) -> bool;

/// Calls `str::to_lowercase`. The result depends on the text alone and is
/// named `lowercase_of`; nothing more is claimed of it.
#[verifier::external_body]
pub(crate) fn to_lowercase(s: &str) -> (r: String)
    ensures
        r@ == lowercase_of(s@),
{
    s.to_lowercase()
}

/// Calls `char::is_whitespace`. The result depends on the character alone
/// and is named `is_white_space`.
#[verifier::external_body]
pub(crate) fn is_whitespace(c: char) -> (r: bool)
    ensures
        r == is_white_space(c),
{
    c.is_whitespace()
}

/// A text without its leading white space.
pub open spec fn trim_front(s: Seq<char>) -> Seq<char>
    decreases s.len(),
{
    if s.len() > 0 && is_white_space(s[0]) {
        trim_front(s.drop_first())
    } else {
        s
    }
}

/// A text without its trailing white space.
pub open spec fn trim_back(s: Seq<char>) -> Seq<char>
    decreases s.len(),
{
    if s.len() > 0 && is_white_space(s.last()) {
        trim_back(s.drop_last())
    } else {
        s
    }
}

/// A text without its surrounding white space.
pub open spec fn trimmed(s: Seq<char>) -> Seq<char> {
    trim_back(trim_front(s))
}

/// The pieces of a text between its single spaces. There is always at least
/// one piece; two spaces in a row enclose an empty piece.
pub open spec fn split(s: Seq<char>) -> Seq<Seq<char>>
    decreases s.len(),
{
    if s.len() == 0 {
        seq![Seq::empty()]
    } else {
        let front = split(s.drop_last());
        if s.last() == ' ' {
            front.push(Seq::empty())
        } else {
            front.drop_last().push(front.last().push(s.last()))
        }
    }
}

/// The pieces put together again, with one space between neighbours.
pub open spec fn join(words: Seq<Seq<char>>) -> Seq<char>
    decreases words.len(),
{
    if words.len() == 0 {
        Seq::empty()
    } else if words.len() == 1 {
        words[0]
    } else {
        join(words.drop_last()).push(' ') + words.last()
    }
}

/// The words of a line: the line is trimmed, split on single spaces, and each
/// piece is put in lowercase.
pub open spec fn words_of(line: Seq<char>) -> Seq<Seq<char>> {
    lowercase_each(split(trimmed(line)))
}

/// Every piece put in lowercase.
pub open spec fn lowercase_each(words: Seq<Seq<char>>) -> Seq<Seq<char>> {
    Seq::new(words.len(), |i: int| lowercase_of(words[i]))
}

/// Two names denote the same thing when their lowercase forms agree.
pub open spec fn same_name(a: Seq<char>, b: Seq<char>) -> bool {
    lowercase_of(a) == lowercase_of(b)
}

/// Putting one more piece in lowercase leaves the earlier ones as they were.
pub proof fn lemma_lowercase_each_push(words: Seq<Seq<char>>, w: Seq<char>)
    ensures
        lowercase_each(words.push(w)) == lowercase_each(words).push(lowercase_of(w)),
{
    let all = words.push(w);
    assert forall|j: int| 0 <= j < all.len() implies lowercase_each(all)[j] == lowercase_each(
        words,
    ).push(lowercase_of(w))[j] by {
        assert(lowercase_each(all)[j] == lowercase_of(all[j]));
        if j < words.len() {
            assert(all[j] == words[j]);
            assert(lowercase_each(words)[j] == lowercase_of(words[j]));
        }
    }
    assert(lowercase_each(all) =~= lowercase_each(words).push(lowercase_of(w)));
}

/// Splitting always yields at least one piece.
pub proof fn lemma_split_nonempty(s: Seq<char>)
    ensures
        split(s).len() >= 1,
    decreases s.len(),
{
    if s.len() > 0 {
        lemma_split_nonempty(s.drop_last());
    }
}

/// Whether a text holds no space.
pub open spec fn spaceless(w: Seq<char>) -> bool {
    forall|i: int| 0 <= i < w.len() ==> w[i] != ' '
}

/// Whether a list of words is in the form that tokenizing leaves alone: each
/// word is its own lowercase form and holds no space, and the words joined
/// have no white space around them.
pub open spec fn settled(words: Seq<Seq<char>>) -> bool {
    &&& forall|i: int|
        0 <= i < words.len() ==> lowercase_of(#[trigger] words[i]) == words[i] && spaceless(
            words[i],
        )
    &&& trimmed(join(words)) == join(words)
}

/// A text without a space is one piece.
pub proof fn lemma_split_word(w: Seq<char>)
    requires
        spaceless(w),
    ensures
        split(w) == seq![w],
    decreases w.len(),
{
    if w.len() > 0 {
        lemma_split_word(w.drop_last());
        assert(w.drop_last().push(w.last()) =~= w);
        assert(seq![w.drop_last()].drop_last().push(w) =~= seq![w]);
    } else {
        assert(w =~= Seq::<char>::empty());
    }
}

/// A space and a word without a space, put after a text, add one piece.
pub proof fn lemma_split_append(a: Seq<char>, w: Seq<char>)
    requires
        spaceless(w),
    ensures
        split(a.push(' ') + w) == split(a).push(w),
    decreases w.len(),
{
    let s = a.push(' ') + w;
    if w.len() == 0 {
        assert(s =~= a.push(' '));
        assert(s.drop_last() =~= a);
        assert(w =~= Seq::<char>::empty());
    } else {
        lemma_split_append(a, w.drop_last());
        assert(s.drop_last() =~= a.push(' ') + w.drop_last());
        assert(s.last() == w.last());
        let front = split(a).push(w.drop_last());
        assert(front.drop_last() =~= split(a));
        assert(w.drop_last().push(w.last()) =~= w);
    }
}

/// Splitting undoes joining, for one or more words without spaces.
pub proof fn lemma_split_join(words: Seq<Seq<char>>)
    requires
        words.len() >= 1,
        forall|i: int| 0 <= i < words.len() ==> spaceless(#[trigger] words[i]),
    ensures
        split(join(words)) == words,
    decreases words.len(),
{
    if words.len() == 1 {
        lemma_split_word(words[0]);
        assert(seq![words[0]] =~= words);
    } else {
        let front = words.drop_last();
        assert forall|i: int| 0 <= i < front.len() implies spaceless(#[trigger] front[i]) by {
            assert(front[i] == words[i]);
        }
        lemma_split_join(front);
        lemma_split_append(join(front), words.last());
        assert(front.push(words.last()) =~= words);
    }
}

/// Whether a text has no white space at its two ends.
pub open spec fn clean(s: Seq<char>) -> bool {
    s.len() == 0 || (!is_white_space(s[0]) && !is_white_space(s.last()))
}

/// Whether putting a word in lowercase keeps its shape: the lowercase form
/// is its own lowercase form and holds no space, it is empty only where the
/// word is, and it begins and ends with white space only where the word does.
pub open spec fn tame(w: Seq<char>) -> bool {
    let l = lowercase_of(w);
    &&& lowercase_of(l) == l
    &&& spaceless(l)
    &&& (l.len() == 0 <==> w.len() == 0)
    &&& w.len() > 0 ==> (is_white_space(l[0]) <==> is_white_space(w[0])) && (is_white_space(
        l.last(),
    ) <==> is_white_space(w.last()))
}

/// A text without its leading white space is empty or begins with another
/// character, and it ends as the text does.
pub proof fn lemma_trim_front(s: Seq<char>)
    ensures
        trim_front(s).len() == 0 || !is_white_space(trim_front(s)[0]),
        trim_front(s).len() > 0 ==> trim_front(s).last() == s.last(),
        trim_front(s).len() <= s.len(),
    decreases s.len(),
{
    if s.len() > 0 && is_white_space(s[0]) {
        lemma_trim_front(s.drop_first());
    }
}

/// A text without its trailing white space is empty or ends with another
/// character, and it begins as the text does.
pub proof fn lemma_trim_back(s: Seq<char>)
    ensures
        trim_back(s).len() == 0 || !is_white_space(trim_back(s).last()),
        trim_back(s).len() > 0 ==> trim_back(s)[0] == s[0],
        trim_back(s).len() <= s.len(),
    decreases s.len(),
{
    if s.len() > 0 && is_white_space(s.last()) {
        lemma_trim_back(s.drop_last());
    }
}

/// A trimmed text is clean.
pub proof fn lemma_trimmed_clean(s: Seq<char>)
    ensures
        clean(trimmed(s)),
{
    lemma_trim_front(s);
    lemma_trim_back(trim_front(s));
}

/// Trimming leaves a clean text as it is.
pub proof fn lemma_clean_trimmed(s: Seq<char>)
    requires
        clean(s),
    ensures
        trimmed(s) == s,
{
}

/// The first piece of a text that begins with no space begins as the text
/// does.
pub proof fn lemma_split_first(s: Seq<char>)
    requires
        s.len() > 0,
        s[0] != ' ',
    ensures
        split(s).len() >= 1,
        split(s)[0].len() > 0,
        split(s)[0][0] == s[0],
    decreases s.len(),
{
    let shorter = s.drop_last();
    lemma_split_nonempty(shorter);
    if s.len() == 1 {
        assert(shorter =~= Seq::<char>::empty());
    } else {
        lemma_split_first(shorter);
    }
}

/// The last piece of a text that ends with no space ends as the text does.
pub proof fn lemma_split_last(s: Seq<char>)
    requires
        s.len() > 0,
        s.last() != ' ',
    ensures
        split(s).len() >= 1,
        split(s).last().len() > 0,
        split(s).last().last() == s.last(),
{
    lemma_split_nonempty(s.drop_last());
}

/// Words joined begin as the first word does, and end as the last word does,
/// where these hold anything.
pub proof fn lemma_join_ends(words: Seq<Seq<char>>)
    requires
        words.len() >= 1,
    ensures
        words[0].len() > 0 ==> join(words).len() > 0 && join(words)[0] == words[0][0],
        words.last().len() > 0 ==> join(words).len() > 0 && join(words).last()
            == words.last().last(),
        words.len() == 1 ==> join(words) == words[0],
    decreases words.len(),
{
    if words.len() > 1 {
        lemma_join_ends(words.drop_last());
    }
}

/// The words of a line are settled where white space includes the space and
/// every piece of the trimmed line is tame.
pub proof fn lemma_tame_line_settles(line: Seq<char>)
    requires
        is_white_space(' '),
        forall|i: int|
            0 <= i < split(trimmed(line)).len() ==> tame(#[trigger] split(trimmed(line))[i]),
    ensures
        settled(words_of(line)),
{
    let t = trimmed(line);
    let raw = split(t);
    let out = words_of(line);
    lemma_trimmed_clean(line);
    lemma_split_nonempty(t);
    assert forall|i: int| 0 <= i < out.len() implies lowercase_of(#[trigger] out[i]) == out[i]
        && spaceless(out[i]) by {
        assert(tame(raw[i]));
    }
    assert(tame(raw[0]));
    assert(tame(raw.last()));
    assert(out[0] == lowercase_of(raw[0]));
    assert(out.last() == lowercase_of(raw.last()));
    lemma_join_ends(out);
    if t.len() == 0 {
        assert(raw[0].len() == 0);
        assert(out.len() == 1);
    } else {
        lemma_split_first(t);
        lemma_split_last(t);
    }
    assert(clean(join(out)));
    lemma_clean_trimmed(join(out));
}

/// Tokenizing is idempotent: where the words of a line are settled, the
/// words of these words, joined to a line again, are the same words.
pub proof fn lemma_tokenize_idempotent(line: Seq<char>)
    requires
        settled(words_of(line)),
    ensures
        words_of(join(words_of(line))) == words_of(line),
{
    let out = words_of(line);
    lemma_split_nonempty(trimmed(line));
    lemma_split_join(out);
    assert(lowercase_each(out) =~= out);
}

/// Whether `needle` occurs somewhere in `hay`.
pub open spec fn contains(hay: Seq<char>, needle: Seq<char>) -> bool {
    exists|k: int|
        0 <= k <= hay.len() - needle.len() && #[trigger] hay.subrange(k, k + needle.len())
            == needle
}

/// A text does not occur in a shorter one.
pub proof fn lemma_too_short(hay: Seq<char>, needle: Seq<char>)
    requires
        hay.len() < needle.len(),
    ensures
        !contains(hay, needle),
{
}

/// A text does not occur where its first character does not.
pub proof fn lemma_first_absent(hay: Seq<char>, needle: Seq<char>)
    requires
        needle.len() > 0,
        forall|k: int| 0 <= k <= hay.len() - needle.len() ==> hay[k] != needle[0],
    ensures
        !contains(hay, needle),
{
    assert forall|k: int| 0 <= k <= hay.len() - needle.len() implies #[trigger] hay.subrange(
        k,
        k + needle.len(),
    ) != needle by {
        assert(hay.subrange(k, k + needle.len())[0] == hay[k]);
    }
}

/// Whether two texts are equal, character by character.
pub fn same_text(a: &str, b: &str) -> (r: bool)
    ensures
        r == (a@ == b@),
{
    let x = String::from_str(a);
    let y = String::from_str(b);
    x == y
}

/// Whether two names agree once both are put in lowercase.
pub fn names_match(a: &str, b: &str) -> (r: bool)
    ensures
        r == same_name(a@, b@),
{
    let x = to_lowercase(a);
    let y = to_lowercase(b);
    x == y
}

/// The characters of a text, in order.
fn chars_of(s: &str) -> (v: Vec<char>)
    ensures
        v@ == s@,
{
    let mut v: Vec<char> = Vec::new();
    for c in it: s.chars()
        invariant
            it.seq() == s@,
            v@ == s@.take(it.index() as int),
    {
        v.push(c);
    }
    v
}

/// The bounds of a text once its surrounding white space is left out.
fn trim_bounds(chars: &Vec<char>) -> (r: (usize, usize))
    ensures
        r.0 <= r.1 <= chars.len(),
        chars@.subrange(r.0 as int, r.1 as int) == trimmed(chars@),
{
    let n = chars.len();
    let mut a: usize = 0;
    assert(chars@.subrange(0, n as int) == chars@);
    while a < n && is_whitespace(chars[a])
        invariant
            a <= n,
            n == chars.len(),
            trim_front(chars@) == trim_front(chars@.subrange(a as int, n as int)),
        decreases n - a,
    {
        proof {
            let cur = chars@.subrange(a as int, n as int);
            assert(cur.drop_first() == chars@.subrange(a as int + 1, n as int));
        }
        a += 1;
    }
    assert(chars@.subrange(0, n as int) == chars@);
    let mut b: usize = n;
    while b > a && is_whitespace(chars[b - 1])
        invariant
            a <= b <= n,
            n == chars.len(),
            trim_front(chars@) == chars@.subrange(a as int, n as int),
            trimmed(chars@) == trim_back(chars@.subrange(a as int, b as int)),
        decreases b,
    {
        proof {
            let cur = chars@.subrange(a as int, b as int);
            assert(cur.drop_last() == chars@.subrange(a as int, b as int - 1));
        }
        b -= 1;
    }
    (a, b)
}

/// Splits a line into its words: surrounding white space is dropped, the rest
/// is cut at every single space, and each piece is put in lowercase. An empty
/// line yields one empty word.
pub fn tokenize(line: &str) -> (words: Vec<String>)
    ensures
        words.deep_view() == words_of(line@),
{
    let chars = chars_of(line);
    let (a, b) = trim_bounds(&chars);
    let mut words: Vec<String> = Vec::new();
    let ghost mut done: Seq<Seq<char>> = Seq::empty();
    let mut start: usize = a;
    let mut i: usize = a;
    assert(line@.subrange(a as int, a as int) == Seq::<char>::empty());
    assert(done.push(Seq::<char>::empty()) == seq![Seq::<char>::empty()]);
    assert(words.deep_view() =~= lowercase_each(done));
    while i < b
        invariant
            chars@ == line@,
            a <= start <= i <= b <= line@.len(),
            split(line@.subrange(a as int, i as int)) == done.push(
                line@.subrange(start as int, i as int),
            ),
            words.deep_view() == lowercase_each(done),
        decreases b - i,
    {
        let ghost prefix = line@.subrange(a as int, i as int + 1);
        assert(prefix.drop_last() == line@.subrange(a as int, i as int));
        if chars[i] == ' ' {
            let piece = line.substring_char(start, i);
            let ghost before = words.deep_view();
            words.push(to_lowercase(piece));
            proof {
                assert(words.deep_view() =~= before.push(lowercase_of(piece@)));
                lemma_lowercase_each_push(done, piece@);
                done = done.push(piece@);
                assert(line@.subrange(i as int + 1, i as int + 1) == Seq::<char>::empty());
            }
            start = i + 1;
        } else {
            proof {
                let cur = done.push(line@.subrange(start as int, i as int));
                assert(cur.drop_last() == done);
                assert(line@.subrange(start as int, i as int).push(line@[i as int])
                    == line@.subrange(start as int, i as int + 1));
            }
        }
        i += 1;
    }
    let piece = line.substring_char(start, b);
    let ghost before = words.deep_view();
    words.push(to_lowercase(piece));
    proof {
        assert(words.deep_view() =~= before.push(lowercase_of(piece@)));
        lemma_lowercase_each_push(done, piece@);
    }
    words
}

} // verus!
