//! Text primitives: lower-casing, character classes, trimming, string
//! building, and the piece-wise splitting of character sequences.

use vstd::prelude::*;
use vstd::string::StrSliceExecFns;
use vstd::string::StringExecFns;

use crate::model::views;

verus! {

/// What `str::to_lowercase` gives for a character sequence.
pub uninterp spec fn lowercase(s: Seq<char>) -> Seq<char>;

/// Whether `char::is_alphanumeric` holds of a character.
pub uninterp spec fn alphanumeric(c: char) -> bool;

/// Whether every character is ASCII.
pub open spec fn ascii_text(s: Seq<char>) -> bool {
    forall|i: int| 0 <= i < s.len() ==> (#[trigger] s[i] as u32) < 128
}

/// Whether a character is an ASCII capital letter.
pub open spec fn ascii_upper(c: char) -> bool {
    'A' <= c && c <= 'Z'
}

/// The ASCII lower-case of a character: capitals map to small letters, every
/// other character to itself.
pub open spec fn ascii_lower(c: char) -> char {
    if ascii_upper(c) {
        ((c as u32) + 32) as char
    } else {
        c
    }
}

/// The lower-case of a text: on ASCII text, character by character; on other
/// text, what `str::to_lowercase` gives.
pub open spec fn lower_text(s: Seq<char>) -> Seq<char> {
    if ascii_text(s) {
        s.map_values(|c: char| ascii_lower(c))
    } else {
        lowercase(s)
    }
}

/// Whether an ASCII character is a letter or a digit.
pub open spec fn ascii_alphanumeric(c: char) -> bool {
    ('a' <= c && c <= 'z') || ('A' <= c && c <= 'Z') || ('0' <= c && c <= '9')
}

/// Whether a character is alphanumeric: on ASCII, a letter or a digit; beyond
/// ASCII, what `char::is_alphanumeric` says.
pub open spec fn word_char(c: char) -> bool {
    if (c as u32) < 128 {
        ascii_alphanumeric(c)
    } else {
        alphanumeric(c)
    }
}

/// Whether a character has the Unicode `White_Space` property, the white
/// space that `str::trim` removes.
pub open spec fn white_space(c: char) -> bool {
    let u = c as u32;
    (0x9 <= u && u <= 0xD) || u == 0x20 || u == 0x85 || u == 0xA0 || u == 0x1680 || (0x2000 <= u
        && u <= 0x200A) || u == 0x2028 || u == 0x2029 || u == 0x202F || u == 0x205F || u == 0x3000
}

/// The text without its leading white space.
pub open spec fn trim_start(s: Seq<char>) -> Seq<char>
    decreases s.len(),
{
    if s.len() > 0 && white_space(s[0]) {
        trim_start(s.drop_first())
    } else {
        s
    }
}

/// The text without its trailing white space.
pub open spec fn trim_end(s: Seq<char>) -> Seq<char>
    decreases s.len(),
{
    if s.len() > 0 && white_space(s.last()) {
        trim_end(s.drop_last())
    } else {
        s
    }
}

/// The text without its leading and trailing white space.
pub open spec fn trimmed(s: Seq<char>) -> Seq<char> {
    trim_end(trim_start(s))
}

/// Calls `str::to_lowercase`. Claimed: the result is `lowercase` of the
/// argument's characters, and on ASCII text it is the character-wise ASCII
/// lower-case; the Unicode case mapping beyond ASCII is left unstated.
#[verifier::external_body]
pub(crate) fn to_lowercase(s: &str) -> (r: String)
    ensures
        r@ == lowercase(s@),
        r@ == lower_text(s@),
{
    s.to_lowercase()
}

/// Calls `char::is_alphanumeric`. Claimed: the result is `alphanumeric` of
/// the character, and on ASCII it holds of the letters and digits exactly;
/// the Unicode character classes beyond ASCII are left unstated.
#[verifier::external_body]
pub(crate) fn is_alphanumeric(c: char) -> (r: bool)
    ensures
        r == alphanumeric(c),
        r == word_char(c),
{
    c.is_alphanumeric()
}

/// Calls `str::trim`. Claimed: the result is the text without its leading
/// and trailing characters of the Unicode `White_Space` property.
#[verifier::external_body]
pub(crate) fn trim(s: &str) -> (r: &str)
    ensures
        r@ == trimmed(s@),
{
    s.trim()
}

/// Calls `String::push`. Claimed: the character is appended at the end.
#[verifier::external_body]
pub(crate) fn push_char(s: &mut String, c: char)
    ensures
        final(s)@ == old(s)@.push(c),
{
    s.push(c)
}

/// The pieces of `s` between separator characters, as `str::split` with a
/// character predicate yields them: `k` separators give `k + 1` pieces, some
/// of which may be empty.
pub open spec fn pieces(s: Seq<char>, sep: spec_fn(char) -> bool) -> Seq<Seq<char>>
    decreases s.len(),
{
    if s.len() == 0 {
        seq![Seq::<char>::empty()]
    } else {
        let prev = pieces(s.drop_last(), sep);
        if sep(s.last()) {
            prev.push(Seq::<char>::empty())
        } else {
            prev.update(prev.len() - 1, prev.last().push(s.last()))
        }
    }
}

/// There is always at least one piece.
pub proof fn lemma_pieces_nonempty(s: Seq<char>, sep: spec_fn(char) -> bool)
    ensures
        pieces(s, sep).len() >= 1,
    decreases s.len(),
{
    if s.len() > 0 {
        lemma_pieces_nonempty(s.drop_last(), sep);
    }
}

/// One more character extends the pieces of a prefix: a separator starts a
/// new empty piece, any other character extends the last piece.
pub proof fn lemma_pieces_step(s: Seq<char>, i: int, sep: spec_fn(char) -> bool)
    requires
        0 <= i < s.len(),
    ensures
        pieces(s.take(i), sep).len() >= 1,
        sep(s[i]) ==> pieces(s.take(i + 1), sep) == pieces(s.take(i), sep).push(
            Seq::<char>::empty(),
        ),
        !sep(s[i]) ==> pieces(s.take(i + 1), sep).drop_last() == pieces(s.take(i), sep).drop_last(),
        !sep(s[i]) ==> pieces(s.take(i + 1), sep).last() == pieces(s.take(i), sep).last().push(s[i]),
{
    lemma_pieces_nonempty(s.take(i), sep);
    assert(s.take(i + 1).drop_last() =~= s.take(i));
    let prev = pieces(s.take(i), sep);
    if !sep(s[i]) {
        assert(prev.update(prev.len() - 1, prev.last().push(s[i])).drop_last() =~= prev.drop_last());
    }
}

/// No piece holds a separator character.
pub proof fn lemma_pieces_avoid_separators(s: Seq<char>, sep: spec_fn(char) -> bool)
    ensures
        forall|i: int, j: int|
            0 <= i < pieces(s, sep).len() && 0 <= j < pieces(s, sep)[i].len() ==> !sep(
                #[trigger] pieces(s, sep)[i][j],
            ),
    decreases s.len(),
{
    if s.len() > 0 {
        let prev = pieces(s.drop_last(), sep);
        lemma_pieces_avoid_separators(s.drop_last(), sep);
        lemma_pieces_nonempty(s.drop_last(), sep);
        let cur = pieces(s, sep);
        assert forall|i: int, j: int|
            0 <= i < cur.len() && 0 <= j < cur[i].len() implies !sep(#[trigger] cur[i][j]) by {
            if sep(s.last()) {
                if i < prev.len() {
                    assert(cur[i] == prev[i]);
                }
            } else {
                if i < prev.len() - 1 {
                    assert(cur[i] == prev[i]);
                } else {
                    assert(cur[i] == prev.last().push(s.last()));
                    if j < prev.last().len() {
                        assert(prev[prev.len() - 1][j] == cur[i][j]);
                    }
                }
            }
        }
    }
}

/// Whether one of the strings equals the given one.
pub fn contains_string(v: &Vec<String>, s: &String) -> (r: bool)
    ensures
        r == views(v@).contains(s@),
{
    let mut i: usize = 0;
    while i < v.len()
        invariant
            0 <= i <= v@.len(),
            forall|j: int| 0 <= j < i ==> #[trigger] v@[j]@ != s@,
        decreases v@.len() - i,
    {
        if v[i] == *s {
            assert(views(v@)[i as int] == s@);
            return true;
        }
        i += 1;
    }
    assert forall|j: int| 0 <= j < views(v@).len() implies views(v@)[j] != s@ by {
        assert(views(v@)[j] == v@[j]@);
    }
    false
}

/// Appending characters that are not separators extends the last piece.
pub proof fn lemma_pieces_append_free(x: Seq<char>, b: Seq<char>, sep: spec_fn(char) -> bool)
    requires
        forall|i: int| 0 <= i < b.len() ==> !sep(#[trigger] b[i]),
    ensures
        pieces(x, sep).len() >= 1,
        pieces(x + b, sep) == pieces(x, sep).update(
            pieces(x, sep).len() - 1,
            pieces(x, sep).last() + b,
        ),
    decreases b.len(),
{
    lemma_pieces_nonempty(x, sep);
    let px = pieces(x, sep);
    if b.len() == 0 {
        assert(x + b =~= x);
        assert(px.last() + b =~= px.last());
        assert(px.update(px.len() - 1, px.last() + b) =~= px);
    } else {
        let b0 = b.drop_last();
        lemma_pieces_append_free(x, b0, sep);
        assert((x + b).drop_last() =~= x + b0);
        assert((x + b).last() == b.last());
        assert(!sep(b[b.len() - 1]));
        let p0 = pieces(x + b0, sep);
        assert(p0.last() == px.last() + b0);
        assert(p0.last().push(b.last()) =~= px.last() + b);
        assert(p0.update(p0.len() - 1, p0.last().push(b.last())) =~= px.update(
            px.len() - 1,
            px.last() + b,
        ));
    }
}

/// A text without separators is a single piece.
pub proof fn lemma_pieces_free(b: Seq<char>, sep: spec_fn(char) -> bool)
    requires
        forall|i: int| 0 <= i < b.len() ==> !sep(#[trigger] b[i]),
    ensures
        pieces(b, sep) == seq![b],
{
    lemma_pieces_append_free(Seq::<char>::empty(), b, sep);
    assert(Seq::<char>::empty() + b =~= b);
    assert(Seq::<char>::empty() + b =~= b);
    assert(seq![Seq::<char>::empty()].update(0, Seq::<char>::empty() + b) =~= seq![b]);
}

/// Splitting two texts joined by a separator gives the pieces of the first
/// followed by the pieces of the second.
pub proof fn lemma_pieces_concat(a: Seq<char>, c: char, b: Seq<char>, sep: spec_fn(char) -> bool)
    requires
        sep(c),
    ensures
        pieces(a + seq![c] + b, sep) == pieces(a, sep) + pieces(b, sep),
    decreases b.len(),
{
    let pa = pieces(a, sep);
    lemma_pieces_nonempty(a, sep);
    if b.len() == 0 {
        assert(a + seq![c] + b =~= (a + seq![c]));
        assert((a + seq![c]).drop_last() =~= a);
        assert(pa + pieces(b, sep) =~= pa.push(Seq::<char>::empty()));
    } else {
        let b0 = b.drop_last();
        let d = b.last();
        lemma_pieces_concat(a, c, b0, sep);
        lemma_pieces_nonempty(b0, sep);
        let s = a + seq![c] + b;
        assert(s.drop_last() =~= a + seq![c] + b0);
        assert(s.last() == d);
        let pb0 = pieces(b0, sep);
        if sep(d) {
            assert((pa + pb0).push(Seq::<char>::empty()) =~= pa + pb0.push(Seq::<char>::empty()));
        } else {
            let q = pa + pb0;
            assert(q.last() == pb0.last());
            assert(q.update(q.len() - 1, q.last().push(d)) =~= pa + pb0.update(
                pb0.len() - 1,
                pb0.last().push(d),
            ));
        }
    }
}

/// Every character of every piece is a character of the text.
pub proof fn lemma_pieces_chars(s: Seq<char>, sep: spec_fn(char) -> bool)
    ensures
        forall|i: int, j: int|
            0 <= i < pieces(s, sep).len() && 0 <= j < pieces(s, sep)[i].len() ==> s.contains(
                #[trigger] pieces(s, sep)[i][j],
            ),
    decreases s.len(),
{
    if s.len() > 0 {
        let rest = s.drop_last();
        let prev = pieces(rest, sep);
        lemma_pieces_chars(rest, sep);
        lemma_pieces_nonempty(rest, sep);
        let cur = pieces(s, sep);
        assert forall|i: int, j: int|
            0 <= i < cur.len() && 0 <= j < cur[i].len() implies s.contains(#[trigger] cur[i][j]) by {
            if sep(s.last()) {
                assert(cur[i] == prev[i]);
                assert(rest.contains(cur[i][j]));
                let k = choose|k: int| 0 <= k < rest.len() && rest[k] == cur[i][j];
                assert(s[k] == rest[k]);
            } else if i < prev.len() - 1 {
                assert(cur[i] == prev[i]);
                assert(rest.contains(cur[i][j]));
                let k = choose|k: int| 0 <= k < rest.len() && rest[k] == cur[i][j];
                assert(s[k] == rest[k]);
            } else {
                assert(cur[i] == prev.last().push(s.last()));
                if j < prev.last().len() {
                    assert(cur[i][j] == prev[prev.len() - 1][j]);
                    assert(rest.contains(cur[i][j]));
                    let k = choose|k: int| 0 <= k < rest.len() && rest[k] == cur[i][j];
                    assert(s[k] == rest[k]);
                } else {
                    assert(cur[i][j] == s[s.len() - 1]);
                }
            }
        }
    }
}

/// Filtering keeps a sequence whose every element passes unchanged.
pub proof fn lemma_filter_all<A>(s: Seq<A>, pred: spec_fn(A) -> bool)
    requires
        forall|i: int| 0 <= i < s.len() ==> pred(#[trigger] s[i]),
    ensures
        s.filter(pred) == s,
    decreases s.len(),
{
    reveal_with_fuel(Seq::filter, 1);
    if s.len() > 0 {
        lemma_filter_all(s.drop_last(), pred);
        assert(pred(s[s.len() - 1]));
        assert(s.drop_last().push(s.last()) =~= s);
    }
}

/// The stop words that the tokeniser drops.
pub open spec fn stop_words() -> Seq<Seq<char>> {
    seq![
        "a"@, "an"@, "the"@, "is"@, "it"@, "i"@, "my"@, "me"@, "we"@, "our"@, "you"@, "your"@,
        "do"@, "does"@, "did"@, "am"@, "are"@, "was"@, "were"@, "be"@, "been"@, "being"@,
        "get"@, "got"@, "have"@, "has"@, "had"@, "not"@, "no"@, "so"@, "to"@, "for"@, "of"@,
        "in"@, "on"@, "at"@, "by"@, "or"@, "and"@, "but"@, "if"@, "that"@, "this"@, "with"@,
        "from"@, "when"@, "why"@, "how"@, "what"@, "where"@, "can"@, "will"@, "would"@,
        "should"@, "keep"@, "getting"@, "keep"@, "always"@, "still"@, "just"@, "even"@, "only"@,
        "also"@,
    ]
}

/// The stop words are exactly these sixty-two words: a word is dropped by
/// the tokeniser if and only if it is one of them, so any other word, such as
/// a domain term, is kept.
pub proof fn lemma_stop_words_exact(w: Seq<char>)
    ensures
        stop_words().contains(w) <==> {
            ||| w == "a"@
            ||| w == "an"@
            ||| w == "the"@
            ||| w == "is"@
            ||| w == "it"@
            ||| w == "i"@
            ||| w == "my"@
            ||| w == "me"@
            ||| w == "we"@
            ||| w == "our"@
            ||| w == "you"@
            ||| w == "your"@
            ||| w == "do"@
            ||| w == "does"@
            ||| w == "did"@
            ||| w == "am"@
            ||| w == "are"@
            ||| w == "was"@
            ||| w == "were"@
            ||| w == "be"@
            ||| w == "been"@
            ||| w == "being"@
            ||| w == "get"@
            ||| w == "got"@
            ||| w == "have"@
            ||| w == "has"@
            ||| w == "had"@
            ||| w == "not"@
            ||| w == "no"@
            ||| w == "so"@
            ||| w == "to"@
            ||| w == "for"@
            ||| w == "of"@
            ||| w == "in"@
            ||| w == "on"@
            ||| w == "at"@
            ||| w == "by"@
            ||| w == "or"@
            ||| w == "and"@
            ||| w == "but"@
            ||| w == "if"@
            ||| w == "that"@
            ||| w == "this"@
            ||| w == "with"@
            ||| w == "from"@
            ||| w == "when"@
            ||| w == "why"@
            ||| w == "how"@
            ||| w == "what"@
            ||| w == "where"@
            ||| w == "can"@
            ||| w == "will"@
            ||| w == "would"@
            ||| w == "should"@
            ||| w == "keep"@
            ||| w == "getting"@
            ||| w == "always"@
            ||| w == "still"@
            ||| w == "just"@
            ||| w == "even"@
            ||| w == "only"@
            ||| w == "also"@
        },
{
    let sw = stop_words();
    assert(sw[0] == "a"@);
    assert(sw[1] == "an"@);
    assert(sw[2] == "the"@);
    assert(sw[3] == "is"@);
    assert(sw[4] == "it"@);
    assert(sw[5] == "i"@);
    assert(sw[6] == "my"@);
    assert(sw[7] == "me"@);
    assert(sw[8] == "we"@);
    assert(sw[9] == "our"@);
    assert(sw[10] == "you"@);
    assert(sw[11] == "your"@);
    assert(sw[12] == "do"@);
    assert(sw[13] == "does"@);
    assert(sw[14] == "did"@);
    assert(sw[15] == "am"@);
    assert(sw[16] == "are"@);
    assert(sw[17] == "was"@);
    assert(sw[18] == "were"@);
    assert(sw[19] == "be"@);
    assert(sw[20] == "been"@);
    assert(sw[21] == "being"@);
    assert(sw[22] == "get"@);
    assert(sw[23] == "got"@);
    assert(sw[24] == "have"@);
    assert(sw[25] == "has"@);
    assert(sw[26] == "had"@);
    assert(sw[27] == "not"@);
    assert(sw[28] == "no"@);
    assert(sw[29] == "so"@);
    assert(sw[30] == "to"@);
    assert(sw[31] == "for"@);
    assert(sw[32] == "of"@);
    assert(sw[33] == "in"@);
    assert(sw[34] == "on"@);
    assert(sw[35] == "at"@);
    assert(sw[36] == "by"@);
    assert(sw[37] == "or"@);
    assert(sw[38] == "and"@);
    assert(sw[39] == "but"@);
    assert(sw[40] == "if"@);
    assert(sw[41] == "that"@);
    assert(sw[42] == "this"@);
    assert(sw[43] == "with"@);
    assert(sw[44] == "from"@);
    assert(sw[45] == "when"@);
    assert(sw[46] == "why"@);
    assert(sw[47] == "how"@);
    assert(sw[48] == "what"@);
    assert(sw[49] == "where"@);
    assert(sw[50] == "can"@);
    assert(sw[51] == "will"@);
    assert(sw[52] == "would"@);
    assert(sw[53] == "should"@);
    assert(sw[54] == "keep"@);
    assert(sw[55] == "getting"@);
    assert(sw[56] == "keep"@);
    assert(sw[57] == "always"@);
    assert(sw[58] == "still"@);
    assert(sw[59] == "just"@);
    assert(sw[60] == "even"@);
    assert(sw[61] == "only"@);
    assert(sw[62] == "also"@);
    if sw.contains(w) {
        let k = choose|k: int| 0 <= k < sw.len() && sw[k] == w;
        if k == 0 {
        } else if k == 1 {
        } else if k == 2 {
        } else if k == 3 {
        } else if k == 4 {
        } else if k == 5 {
        } else if k == 6 {
        } else if k == 7 {
        } else if k == 8 {
        } else if k == 9 {
        } else if k == 10 {
        } else if k == 11 {
        } else if k == 12 {
        } else if k == 13 {
        } else if k == 14 {
        } else if k == 15 {
        } else if k == 16 {
        } else if k == 17 {
        } else if k == 18 {
        } else if k == 19 {
        } else if k == 20 {
        } else if k == 21 {
        } else if k == 22 {
        } else if k == 23 {
        } else if k == 24 {
        } else if k == 25 {
        } else if k == 26 {
        } else if k == 27 {
        } else if k == 28 {
        } else if k == 29 {
        } else if k == 30 {
        } else if k == 31 {
        } else if k == 32 {
        } else if k == 33 {
        } else if k == 34 {
        } else if k == 35 {
        } else if k == 36 {
        } else if k == 37 {
        } else if k == 38 {
        } else if k == 39 {
        } else if k == 40 {
        } else if k == 41 {
        } else if k == 42 {
        } else if k == 43 {
        } else if k == 44 {
        } else if k == 45 {
        } else if k == 46 {
        } else if k == 47 {
        } else if k == 48 {
        } else if k == 49 {
        } else if k == 50 {
        } else if k == 51 {
        } else if k == 52 {
        } else if k == 53 {
        } else if k == 54 {
        } else if k == 55 {
        } else if k == 56 {
        } else if k == 57 {
        } else if k == 58 {
        } else if k == 59 {
        } else if k == 60 {
        } else if k == 61 {
        } else if k == 62 {
        }
    }
}

/// Whether a string is one of the stop words.
pub fn is_stop_word(w: &String) -> (r: bool)
    ensures
        r == stop_words().contains(w@),
{
    let list: [&str; 63] = [
        "a", "an", "the", "is", "it", "i", "my", "me", "we", "our", "you", "your", "do", "does",
        "did", "am", "are", "was", "were", "be", "been", "being", "get", "got", "have", "has",
        "had", "not", "no", "so", "to", "for", "of", "in", "on", "at", "by", "or", "and", "but",
        "if", "that", "this", "with", "from", "when", "why", "how", "what", "where", "can",
        "will", "would", "should", "keep", "getting", "keep", "always", "still", "just", "even",
        "only", "also",
    ];
    let ghost expected = stop_words();
    assert(forall|j: int| 0 <= j < 63 ==> #[trigger] list@[j]@ == expected[j]);
    let mut i: usize = 0;
    while i < 63
        invariant
            0 <= i <= 63,
            expected == stop_words(),
            expected.len() == 63,
            forall|j: int| 0 <= j < 63 ==> #[trigger] list@[j]@ == expected[j],
            forall|j: int| 0 <= j < i ==> expected[j] != w@,
        decreases 63 - i,
    {
        let candidate = String::from_str(list[i]);
        if candidate == *w {
            assert(expected[i as int] == w@);
            return true;
        }
        i += 1;
    }
    assert(!expected.contains(w@));
    false
}

} // verus!
