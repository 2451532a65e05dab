//! Text as sequences of characters.
//!
//! All scanning in this library works on `Vec<char>`, whose view is the
//! `Seq<char>` that the contracts speak of. The functions here cut such
//! sequences into pieces, strip what surrounds a value and compare a value
//! with a keyword.
use vstd::prelude::*;

verus! {

/// What separates the pieces of a text.
#[derive(Clone, Copy, Debug)]
pub enum Separator {
    /// One given character.
    Is(char),
    /// Any white space character.
    Space,
}

/// Whether `c` has the Unicode property `White_Space`.
pub open spec fn is_space(c: char) -> bool {
    ||| '\u{9}' <= c <= '\u{D}'
    ||| c == ' '
    ||| c == '\u{85}'
    ||| c == '\u{A0}'
    ||| c == '\u{1680}'
    ||| '\u{2000}' <= c <= '\u{200A}'
    ||| c == '\u{2028}'
    ||| c == '\u{2029}'
    ||| c == '\u{202F}'
    ||| c == '\u{205F}'
    ||| c == '\u{3000}'
}

/// Whether `c` is a white space character.
pub fn is_whitespace(c: char) -> (out: bool)
    ensures
        out == is_space(c),
{
    ('\u{9}' <= c && c <= '\u{D}') || c == ' ' || c == '\u{85}' || c == '\u{A0}' || c
        == '\u{1680}' || ('\u{2000}' <= c && c <= '\u{200A}') || c == '\u{2028}' || c
        == '\u{2029}' || c == '\u{202F}' || c == '\u{205F}' || c == '\u{3000}'
}

impl Separator {
    /// Whether `c` separates two pieces.
    pub open spec fn separates(self, c: char) -> bool {
        match self {
            Separator::Is(mark) => c == mark,
            Separator::Space => is_space(c),
        }
    }

    /// Whether `c` separates two pieces.
    pub fn test(&self, c: char) -> (out: bool)
        ensures
            out == self.separates(c),
    {
        match self {
            Separator::Is(mark) => c == *mark,
            Separator::Space => is_whitespace(c),
        }
    }
}

/// The pieces of `s` between its separators, read from left to right.
///
/// A text without a separator is one piece. Each separator ends the piece
/// before it and opens a new one, so two separators in a row enclose an empty
/// piece, and a text with `n` separators has `n + 1` pieces.
pub open spec fn split(s: Seq<char>, sep: Separator) -> Seq<Seq<char>>
    decreases s.len(),
{
    if s.len() == 0 {
        seq![Seq::<char>::empty()]
    } else {
        let before = split(s.drop_last(), sep);
        if sep.separates(s.last()) {
            before.push(Seq::<char>::empty())
        } else {
            before.drop_last().push(before.last().push(s.last()))
        }
    }
}

/// The entries of `pieces` that are not empty, in their order.
pub open spec fn non_empty(pieces: Seq<Seq<char>>) -> Seq<Seq<char>>
    decreases pieces.len(),
{
    if pieces.len() == 0 {
        pieces
    } else if pieces.last().len() == 0 {
        non_empty(pieces.drop_last())
    } else {
        non_empty(pieces.drop_last()).push(pieces.last())
    }
}

/// The words of `s`: its maximal runs of characters that are no white space.
pub open spec fn words(s: Seq<char>) -> Seq<Seq<char>> {
    non_empty(split(s, Separator::Space))
}

/// `s` without the white space at its start.
pub open spec fn trim_start(s: Seq<char>) -> Seq<char>
    decreases s.len(),
{
    if s.len() > 0 && is_space(s[0]) {
        trim_start(s.drop_first())
    } else {
        s
    }
}

/// `s` without the white space at its end.
pub open spec fn trim_end(s: Seq<char>) -> Seq<char>
    decreases s.len(),
{
    if s.len() > 0 && is_space(s.last()) {
        trim_end(s.drop_last())
    } else {
        s
    }
}

/// `s` without the white space at its start and at its end.
pub open spec fn trim(s: Seq<char>) -> Seq<char> {
    trim_end(trim_start(s))
}

/// `s` without any occurrence of the character `c`.
pub open spec fn without(s: Seq<char>, c: char) -> Seq<char>
    decreases s.len(),
{
    if s.len() == 0 {
        s
    } else if s.last() == c {
        without(s.drop_last(), c)
    } else {
        without(s.drop_last(), c).push(s.last())
    }
}

/// A raw value made clean: without the white space around it, and then
/// without any double quote.
pub open spec fn clean_value(value: Seq<char>) -> Seq<char> {
    without(trim(value), '"')
}

/// Whether `s` begins with `prefix`.
pub open spec fn has_prefix(s: Seq<char>, prefix: Seq<char>) -> bool {
    prefix.len() <= s.len() && s.take(prefix.len() as int) == prefix
}

/// Whether `s` ends with `suffix`.
pub open spec fn has_suffix(s: Seq<char>, suffix: Seq<char>) -> bool {
    suffix.len() <= s.len() && s.skip(s.len() - suffix.len()) == suffix
}

/// The texts that the vectors of `v` hold, in order.
pub open spec fn texts(v: Seq<Vec<char>>) -> Seq<Seq<char>> {
    Seq::new(v.len(), |i: int| v[i]@)
}

/// The characters of `s`, in order.
pub fn chars_of(s: &str) -> (out: Vec<char>)
    ensures
        out@ == s@,
{
    let mut out: Vec<char> = Vec::new();
    for c in it: s.chars()
        invariant
            out@ == it.seq().take(it.index() as int),
            it.seq() == s@,
    {
        out.push(c);
    }
    out
}

/// The string that holds the characters `chars`, in order.
///
/// Trusted: calls `String::from_iter` of the standard library on the
/// characters, which yields the string made of exactly these characters.
#[verifier::external_body]
pub(crate) fn string_of(chars: &Vec<char>) -> (out: String)
    ensures
        out@ == chars@,
{
    String::from_iter(chars.iter())
}

/// A copy of `s[from..to]`.
pub(crate) fn slice_of(s: &Vec<char>, from: usize, to: usize) -> (out: Vec<char>)
    requires
        from <= to <= s@.len(),
    ensures
        out@ == s@.subrange(from as int, to as int),
{
    let mut out: Vec<char> = Vec::new();
    let mut i: usize = from;
    while i < to
        invariant
            from <= i <= to <= s@.len(),
            out@ == s@.subrange(from as int, i as int),
        decreases to - i,
    {
        out.push(s[i]);
        i = i + 1;
    }
    out
}

/// Whether `a` and `b` hold the same characters.
pub fn same_chars(a: &Vec<char>, b: &Vec<char>) -> (out: bool)
    ensures
        out == (a@ == b@),
{
    if a.len() != b.len() {
        return false;
    }
    let mut i: usize = 0;
    while i < a.len()
        invariant
            i <= a@.len(),
            a@.len() == b@.len(),
            a@.take(i as int) == b@.take(i as int),
        decreases a@.len() - i,
    {
        if a[i] != b[i] {
            return false;
        }
        proof {
            assert(a@.take(i as int + 1) =~= a@.take(i as int).push(a@[i as int]));
            assert(b@.take(i as int + 1) =~= b@.take(i as int).push(b@[i as int]));
        }
        i = i + 1;
    }
    proof {
        assert(a@.take(a@.len() as int) =~= a@);
        assert(b@.take(b@.len() as int) =~= b@);
    }
    true
}

/// Whether `s` is the keyword `word`.
pub fn is_word(s: &Vec<char>, word: &str) -> (out: bool)
    ensures
        out == (s@ == word@),
{
    let other = chars_of(word);
    same_chars(s, &other)
}

/// Whether `s` begins with `prefix`.
pub fn starts_with(s: &Vec<char>, prefix: &Vec<char>) -> (out: bool)
    ensures
        out == has_prefix(s@, prefix@),
{
    if prefix.len() > s.len() {
        return false;
    }
    let head = slice_of(s, 0, prefix.len());
    same_chars(&head, prefix)
}

/// Whether `s` ends with `suffix`.
pub fn ends_with(s: &Vec<char>, suffix: &Vec<char>) -> (out: bool)
    ensures
        out == has_suffix(s@, suffix@),
{
    if suffix.len() > s.len() {
        return false;
    }
    let tail = slice_of(s, s.len() - suffix.len(), s.len());
    same_chars(&tail, suffix)
}

/// Cuts `s` at every separator.
pub fn split_at(s: &Vec<char>, sep: Separator) -> (out: Vec<Vec<char>>)
    ensures
        texts(out@) == split(s@, sep),
        out@.len() >= 1,
{
    let mut out: Vec<Vec<char>> = Vec::new();
    let mut piece: Vec<char> = Vec::new();
    let mut i: usize = 0;
    proof {
        assert(s@.take(0) =~= Seq::<char>::empty());
        assert(texts(out@).push(piece@) =~= seq![Seq::<char>::empty()]);
    }
    while i < s.len()
        invariant
            i <= s@.len(),
            texts(out@).push(piece@) == split(s@.take(i as int), sep),
        decreases s@.len() - i,
    {
        let c = s[i];
        let ghost done = texts(out@);
        let ghost open = piece@;
        proof {
            assert(s@.take(i as int + 1).drop_last() =~= s@.take(i as int));
            assert(s@.take(i as int + 1).last() == c);
            assert(done.push(open).drop_last() =~= done);
        }
        if sep.test(c) {
            out.push(piece);
            piece = Vec::new();
            proof {
                assert(texts(out@) =~= done.push(open));
            }
        } else {
            piece.push(c);
        }
        i = i + 1;
    }
    proof {
        assert(s@.take(s@.len() as int) =~= s@);
    }
    let ghost done = texts(out@);
    out.push(piece);
    proof {
        assert(texts(out@) =~= done.push(piece@));
    }
    out
}

/// The vectors of `pieces` that are not empty, in their order.
pub fn keep_non_empty(pieces: &Vec<Vec<char>>) -> (out: Vec<Vec<char>>)
    ensures
        texts(out@) == non_empty(texts(pieces@)),
{
    let mut out: Vec<Vec<char>> = Vec::new();
    let mut i: usize = 0;
    proof {
        assert(texts(pieces@).take(0) =~= Seq::<Seq<char>>::empty());
        assert(texts(out@) =~= Seq::<Seq<char>>::empty());
    }
    while i < pieces.len()
        invariant
            i <= pieces@.len(),
            texts(out@) == non_empty(texts(pieces@).take(i as int)),
        decreases pieces@.len() - i,
    {
        let ghost done = texts(out@);
        proof {
            assert(texts(pieces@).take(i as int + 1).drop_last() =~= texts(pieces@).take(
                i as int,
            ));
            assert(texts(pieces@).take(i as int + 1).last() == pieces@[i as int]@);
        }
        if pieces[i].len() > 0 {
            let word = slice_of(&pieces[i], 0, pieces[i].len());
            proof {
                assert(word@ =~= pieces@[i as int]@);
            }
            out.push(word);
            proof {
                assert(texts(out@) =~= done.push(word@));
            }
        }
        i = i + 1;
    }
    proof {
        assert(texts(pieces@).take(pieces@.len() as int) =~= texts(pieces@));
    }
    out
}

/// The words of `s`, in order.
pub fn words_of(s: &Vec<char>) -> (out: Vec<Vec<char>>)
    ensures
        texts(out@) == words(s@),
{
    let pieces = split_at(s, Separator::Space);
    keep_non_empty(&pieces)
}

/// `s` without the white space at its start and at its end.
pub fn trimmed(s: &Vec<char>) -> (out: Vec<char>)
    ensures
        out@ == trim(s@),
{
    let n = s.len();
    let mut from: usize = 0;
    proof {
        assert(s@.skip(0) =~= s@);
    }
    while from < n && is_whitespace(s[from])
        invariant
            from <= n == s@.len(),
            trim_start(s@) == trim_start(s@.skip(from as int)),
        decreases n - from,
    {
        proof {
            assert(s@.skip(from as int).drop_first() =~= s@.skip(from as int + 1));
        }
        from = from + 1;
    }
    let mut to: usize = n;
    proof {
        assert(s@.skip(from as int) =~= s@.subrange(from as int, n as int));
    }
    while to > from && is_whitespace(s[to - 1])
        invariant
            from <= to <= n == s@.len(),
            trim(s@) == trim_end(s@.subrange(from as int, to as int)),
        decreases to - from,
    {
        proof {
            assert(s@.subrange(from as int, to as int).drop_last() =~= s@.subrange(
                from as int,
                to as int - 1,
            ));
        }
        to = to - 1;
    }
    slice_of(s, from, to)
}

/// `s` without any occurrence of the character `c`.
pub fn without_char(s: &Vec<char>, c: char) -> (out: Vec<char>)
    ensures
        out@ == without(s@, c),
{
    let mut out: Vec<char> = Vec::new();
    let mut i: usize = 0;
    proof {
        assert(s@.take(0) =~= Seq::<char>::empty());
    }
    while i < s.len()
        invariant
            i <= s@.len(),
            out@ == without(s@.take(i as int), c),
        decreases s@.len() - i,
    {
        proof {
            assert(s@.take(i as int + 1).drop_last() =~= s@.take(i as int));
        }
        if s[i] != c {
            out.push(s[i]);
        }
        i = i + 1;
    }
    proof {
        assert(s@.take(s@.len() as int) =~= s@);
    }
    out
}

/// `value` made clean: without the white space around it, and then without
/// any double quote.
pub fn cleaned(value: &Vec<char>) -> (out: Vec<char>)
    ensures
        out@ == clean_value(value@),
{
    let inner = trimmed(value);
    without_char(&inner, '"')
}

/// A text is cut into at least one piece.
pub proof fn lemma_split_is_not_empty(s: Seq<char>, sep: Separator)
    ensures
        split(s, sep).len() >= 1,
    decreases s.len(),
{
    if s.len() > 0 {
        lemma_split_is_not_empty(s.drop_last(), sep);
    }
}

/// No piece of a text holds a separator.
pub proof fn lemma_split_has_no_separator(s: Seq<char>, sep: Separator)
    ensures
        forall|i: int, j: int|
            0 <= i < split(s, sep).len() && 0 <= j < split(s, sep)[i].len() ==> !sep.separates(
                #[trigger] split(s, sep)[i][j],
            ),
    decreases s.len(),
{
    if s.len() > 0 {
        let before = split(s.drop_last(), sep);
        lemma_split_is_not_empty(s.drop_last(), sep);
        lemma_split_has_no_separator(s.drop_last(), sep);
        let after = split(s, sep);
        assert forall|i: int, j: int|
            0 <= i < after.len() && 0 <= j < after[i].len() implies !sep.separates(
            #[trigger] after[i][j],
        ) by {
            if sep.separates(s.last()) {
                if i < before.len() {
                    assert(after[i][j] == before[i][j]);
                }
            } else if i < before.len() - 1 {
                assert(after[i][j] == before[i][j]);
            } else if j < before.last().len() {
                assert(after[i][j] == before[before.len() - 1][j]);
            }
        }
    }
}

/// The pieces `pieces` put together again, with the character `mark` between
/// every two of them.
pub open spec fn join(pieces: Seq<Seq<char>>, mark: char) -> Seq<char>
    decreases pieces.len(),
{
    if pieces.len() == 0 {
        Seq::<char>::empty()
    } else if pieces.len() == 1 {
        pieces[0]
    } else {
        join(pieces.drop_last(), mark).push(mark) + pieces.last()
    }
}

/// Cutting loses nothing: the pieces of a text that is cut at a character,
/// put together again with that character between them, are the text.
pub proof fn lemma_split_joins(s: Seq<char>, mark: char)
    ensures
        join(split(s, Separator::Is(mark)), mark) == s,
    decreases s.len(),
{
    let sep = Separator::Is(mark);
    if s.len() == 0 {
        assert(join(seq![Seq::<char>::empty()], mark) =~= s);
    } else {
        let before = split(s.drop_last(), sep);
        lemma_split_is_not_empty(s.drop_last(), sep);
        lemma_split_joins(s.drop_last(), mark);
        let after = split(s, sep);
        if s.last() == mark {
            assert(after.drop_last() =~= before);
            assert(join(after, mark) =~= s.drop_last().push(mark));
            assert(s.drop_last().push(mark) =~= s);
        } else if before.len() == 1 {
            assert(after =~= seq![before[0].push(s.last())]);
            assert(join(after, mark) =~= s.drop_last().push(s.last()));
            assert(s.drop_last().push(s.last()) =~= s);
        } else {
            assert(after.drop_last() =~= before.drop_last());
            assert(after.last() == before.last().push(s.last()));
            assert(join(after, mark) =~= join(before, mark).push(s.last()));
            assert(s.drop_last().push(s.last()) =~= s);
        }
    }
}

/// Every word holds at least one character, and none that is white space.
pub proof fn lemma_words_are_solid(s: Seq<char>)
    ensures
        forall|i: int| 0 <= i < words(s).len() ==> (#[trigger] words(s)[i]).len() > 0,
        forall|i: int, j: int|
            0 <= i < words(s).len() && 0 <= j < words(s)[i].len() ==> !is_space(
                #[trigger] words(s)[i][j],
            ),
{
    let pieces = split(s, Separator::Space);
    lemma_split_has_no_separator(s, Separator::Space);
    lemma_non_empty_keeps(pieces);
    assert forall|i: int, j: int|
        0 <= i < words(s).len() && 0 <= j < words(s)[i].len() implies !is_space(
        #[trigger] words(s)[i][j],
    ) by {
        let from = choose|k: int| 0 <= k < pieces.len() && pieces[k] == words(s)[i];
        assert(!Separator::Space.separates(pieces[from][j]));
    }
}

/// What is left of the pieces after the empty ones are dropped: each entry
/// is not empty and is one of the pieces.
pub proof fn lemma_non_empty_keeps(pieces: Seq<Seq<char>>)
    ensures
        forall|i: int|
            0 <= i < non_empty(pieces).len() ==> {
                &&& (#[trigger] non_empty(pieces)[i]).len() > 0
                &&& exists|k: int| 0 <= k < pieces.len() && pieces[k] == non_empty(pieces)[i]
            },
    decreases pieces.len(),
{
    if pieces.len() > 0 {
        let front = pieces.drop_last();
        lemma_non_empty_keeps(front);
        let kept = non_empty(pieces);
        assert forall|i: int| 0 <= i < kept.len() implies {
            &&& (#[trigger] kept[i]).len() > 0
            &&& exists|k: int| 0 <= k < pieces.len() && pieces[k] == kept[i]
        } by {
            if i < non_empty(front).len() {
                assert(kept[i] == non_empty(front)[i]);
                let k = choose|k: int| 0 <= k < front.len() && front[k] == non_empty(front)[i];
                assert(pieces[k] == kept[i]);
            } else {
                assert(pieces[pieces.len() - 1] == kept[i]);
            }
        }
    }
}

/// What trimming at the start takes away is white space, and what is left
/// does not begin with white space.
pub proof fn lemma_trim_start(s: Seq<char>)
    ensures
        trim_start(s).len() <= s.len(),
        trim_start(s) == s.skip(s.len() - trim_start(s).len()),
        forall|k: int| 0 <= k < s.len() - trim_start(s).len() ==> is_space(#[trigger] s[k]),
        trim_start(s).len() > 0 ==> !is_space(trim_start(s)[0]),
    decreases s.len(),
{
    if s.len() > 0 && is_space(s[0]) {
        let rest = s.drop_first();
        lemma_trim_start(rest);
        let cut = s.len() - trim_start(s).len();
        assert(rest.skip(rest.len() - trim_start(rest).len()) =~= s.skip(cut));
        assert forall|k: int| 0 <= k < cut implies is_space(#[trigger] s[k]) by {
            if k > 0 {
                assert(s[k] == rest[k - 1]);
            }
        }
    } else {
        assert(s.skip(0) =~= s);
    }
}

/// What trimming at the end takes away is white space, and what is left does
/// not end with white space.
pub proof fn lemma_trim_end(s: Seq<char>)
    ensures
        trim_end(s).len() <= s.len(),
        trim_end(s) == s.take(trim_end(s).len() as int),
        forall|k: int| trim_end(s).len() <= k < s.len() ==> is_space(#[trigger] s[k]),
        trim_end(s).len() > 0 ==> !is_space(trim_end(s).last()),
    decreases s.len(),
{
    if s.len() > 0 && is_space(s.last()) {
        let rest = s.drop_last();
        lemma_trim_end(rest);
        assert(rest.take(trim_end(rest).len() as int) =~= s.take(trim_end(s).len() as int));
        assert forall|k: int| trim_end(s).len() <= k < s.len() implies is_space(
            #[trigger] s[k],
        ) by {
            if k < rest.len() {
                assert(s[k] == rest[k]);
            }
        }
    } else {
        assert(s.take(s.len() as int) =~= s);
    }
}

/// Trimming keeps the core of a text. The trimmed text is the part of the
/// text between two places; all before the first and all from the second on
/// is white space; and the trimmed text neither begins nor ends with white
/// space.
pub proof fn lemma_trim_is_the_core(s: Seq<char>)
    ensures
        exists|from: int, to: int|
            {
                &&& 0 <= from <= to <= s.len()
                &&& #[trigger] s.subrange(from, to) == trim(s)
                &&& forall|k: int| 0 <= k < from ==> is_space(#[trigger] s[k])
                &&& forall|k: int| to <= k < s.len() ==> is_space(#[trigger] s[k])
            },
        trim(s).len() > 0 ==> !is_space(trim(s)[0]) && !is_space(trim(s).last()),
{
    let inner = trim_start(s);
    lemma_trim_start(s);
    lemma_trim_end(inner);
    let from = s.len() - inner.len();
    let to = from + trim(s).len();
    assert(s.subrange(from, to) =~= trim(s));
    assert forall|k: int| to <= k < s.len() implies is_space(#[trigger] s[k]) by {
        assert(s[k] == inner[k - from]);
    }
    if trim(s).len() > 0 {
        assert(trim(s)[0] == inner[0]);
    }
}

/// Nothing of the removed character is left, and a text without that
/// character is left as it is.
pub proof fn lemma_without(s: Seq<char>, c: char)
    ensures
        forall|i: int| 0 <= i < without(s, c).len() ==> #[trigger] without(s, c)[i] != c,
        without(s, c).len() <= s.len(),
        (forall|i: int| 0 <= i < s.len() ==> #[trigger] s[i] != c) ==> without(s, c) == s,
    decreases s.len(),
{
    if s.len() > 0 {
        lemma_without(s.drop_last(), c);
        if forall|i: int| 0 <= i < s.len() ==> #[trigger] s[i] != c {
            assert forall|i: int| 0 <= i < s.drop_last().len() implies #[trigger] s.drop_last()[i]
                != c by {
                assert(s.drop_last()[i] == s[i]);
            }
            assert(s[s.len() - 1] != c);
            assert(s.drop_last().push(s.last()) =~= s);
        }
    }
}

} // verus!
