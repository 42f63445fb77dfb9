//! Text records as sequences of characters: lines, separated fields and
//! prefix tests, with the executable scanners that compute them.

use vstd::prelude::*;

verus! {

/// Where the first `sep` of `s` stands; `s.len()` when `s` holds none.
pub open spec fn first_at(s: Seq<char>, sep: char) -> int
    decreases s.len(),
{
    if s.len() == 0 || s[0] == sep {
        0
    } else {
        1 + first_at(s.drop_first(), sep)
    }
}

/// Where the last `c` of `s` stands; `-1` when `s` holds none.
pub open spec fn last_at(s: Seq<char>, c: char) -> int
    decreases s.len(),
{
    if s.len() == 0 {
        -1
    } else if s.last() == c {
        s.len() - 1
    } else {
        last_at(s.drop_last(), c)
    }
}

/// The pieces of `s` between occurrences of `sep`, in order. There is always
/// at least one piece, and a separator at either end gives an empty piece.
pub open spec fn split(s: Seq<char>, sep: char) -> Seq<Seq<char>>
    decreases s.len(),
{
    let i = first_at(s, sep);
    if 0 <= i < s.len() {
        seq![s.take(i)] + split(s.skip(i + 1), sep)
    } else {
        seq![s]
    }
}

/// The `n`-th piece of `s` between separators, counted from zero; empty
/// when `s` has fewer pieces.
pub open spec fn piece(s: Seq<char>, sep: char, n: nat) -> Seq<char> {
    let pieces = split(s, sep);
    if n < pieces.len() {
        pieces[n as int]
    } else {
        Seq::empty()
    }
}

/// `line` without the carriage return that ends it, if one does.
pub open spec fn strip_cr(line: Seq<char>) -> Seq<char> {
    if line.len() > 0 && line.last() == '\r' {
        line.drop_last()
    } else {
        line
    }
}

/// Whether `c` stands between the tokens of a line: a space or a tab.
pub open spec fn is_blank(c: char) -> bool {
    c == ' ' || c == '\t'
}

/// How many characters `s` begins with that are all blanks, where `blank`
/// holds, or all no blanks, where it does not.
pub open spec fn run_len(s: Seq<char>, blank: bool) -> int
    decreases s.len(),
{
    if s.len() > 0 && is_blank(s[0]) == blank {
        1 + run_len(s.drop_first(), blank)
    } else {
        0
    }
}

/// The first token of `s`: after the blanks that `s` begins with, the
/// characters up to the next blank or the end. Empty when nothing but
/// blanks is there.
pub open spec fn first_word(s: Seq<char>) -> Seq<char> {
    let rest = s.skip(run_len(s, true));
    rest.take(run_len(rest, false))
}

/// The lines of `s`. A line ends at a line feed, which is not part of it,
/// nor is a carriage return directly before that line feed. Text after the
/// last line feed is a line of its own unless it is empty.
pub open spec fn lines(s: Seq<char>) -> Seq<Seq<char>>
    decreases s.len(),
{
    let i = first_at(s, '\n');
    if s.len() == 0 {
        Seq::empty()
    } else if 0 <= i < s.len() {
        seq![strip_cr(s.take(i))] + lines(s.skip(i + 1))
    } else {
        seq![s]
    }
}

/// The views of a vector of character vectors.
pub open spec fn views(v: Seq<Vec<char>>) -> Seq<Seq<char>> {
    v.map_values(|l: Vec<char>| l@)
}

/// The views of a vector of strings.
pub open spec fn text_views(texts: Seq<String>) -> Seq<Seq<char>> {
    texts.map_values(|t: String| t@)
}

/// An index before which no `sep` stands, and which is the length of `s` or
/// holds a `sep`, is `first_at`.
pub proof fn lemma_first_at_is(s: Seq<char>, sep: char, i: int)
    requires
        0 <= i <= s.len(),
        i < s.len() ==> s[i] == sep,
        forall|j: int| 0 <= j < i ==> s[j] != sep,
    ensures
        first_at(s, sep) == i,
    decreases s.len(),
{
    if s.len() != 0 && s[0] != sep {
        let t = s.drop_first();
        assert forall|j: int| 0 <= j < i - 1 implies t[j] != sep by {
            assert(t[j] == s[j + 1]);
        }
        lemma_first_at_is(t, sep, i - 1);
    }
}

/// An index after which no `c` stands, and which is `-1` or holds a `c`, is
/// `last_at`.
pub proof fn lemma_last_at_is(s: Seq<char>, c: char, i: int)
    requires
        -1 <= i < s.len(),
        i >= 0 ==> s[i] == c,
        forall|j: int| i < j < s.len() ==> s[j] != c,
    ensures
        last_at(s, c) == i,
    decreases s.len(),
{
    if s.len() != 0 && s.last() != c {
        let t = s.drop_last();
        assert forall|j: int| i < j < t.len() implies t[j] != c by {
            assert(t[j] == s[j]);
        }
        lemma_last_at_is(t, c, i);
    }
}

/// A place up to which all characters are blanks, or all are none, and at
/// which `s` ends or the other kind stands, is `run_len`.
pub proof fn lemma_run_len_is(s: Seq<char>, blank: bool, n: int)
    requires
        0 <= n <= s.len(),
        forall|j: int| 0 <= j < n ==> is_blank(s[j]) == blank,
        n < s.len() ==> is_blank(s[n]) != blank,
    ensures
        run_len(s, blank) == n,
    decreases s.len(),
{
    if n > 0 {
        let t = s.drop_first();
        assert forall|j: int| 0 <= j < n - 1 implies is_blank(t[j]) == blank by {
            assert(t[j] == s[j + 1]);
        }
        assert(n < s.len() ==> t[n - 1] == s[n]);
        lemma_run_len_is(t, blank, n - 1);
    }
}

/// A token is found whatever blanks stand before it and whatever follows
/// the blank that ends it: where `gap` is blanks only, `word` is not empty
/// and holds no blank, and `rest` is empty or begins with a blank, the
/// first token of the three in a row is `word`.
pub proof fn lemma_first_word(gap: Seq<char>, word: Seq<char>, rest: Seq<char>)
    requires
        forall|j: int| 0 <= j < gap.len() ==> is_blank(gap[j]),
        word.len() > 0,
        forall|j: int| 0 <= j < word.len() ==> !is_blank(word[j]),
        rest.len() == 0 || is_blank(rest[0]),
    ensures
        first_word(gap + word + rest) == word,
{
    let s = gap + word + rest;
    let tail = word + rest;
    assert(s[gap.len() as int] == word[0]);
    assert forall|j: int| 0 <= j < gap.len() implies is_blank(s[j]) == true by {
        assert(s[j] == gap[j]);
    }
    lemma_run_len_is(s, true, gap.len() as int);
    assert(s.skip(gap.len() as int) =~= tail);
    assert forall|j: int| 0 <= j < word.len() implies is_blank(tail[j]) == false by {
        assert(tail[j] == word[j]);
    }
    assert(word.len() < tail.len() ==> tail[word.len() as int] == rest[0]);
    lemma_run_len_is(tail, false, word.len() as int);
    assert(tail.take(word.len() as int) =~= word);
}

/// Text without a separator is a single piece.
pub proof fn lemma_split_whole(s: Seq<char>, sep: char)
    requires
        !s.contains(sep),
    ensures
        split(s, sep) == seq![s],
{
    assert forall|j: int| 0 <= j < s.len() implies s[j] != sep by {
        assert(s.contains(s[j]));
    }
    lemma_first_at_is(s, sep, s.len() as int);
}

/// Text before the first separator is the first piece, and the other
/// pieces are those of the text after that separator.
pub proof fn lemma_split_head(head: Seq<char>, tail: Seq<char>, sep: char)
    requires
        !head.contains(sep),
    ensures
        split(head + seq![sep] + tail, sep) == seq![head] + split(tail, sep),
{
    let s = head + seq![sep] + tail;
    let i = head.len() as int;
    assert forall|j: int| 0 <= j < i implies s[j] != sep by {
        assert(s[j] == head[j]);
        assert(head.contains(head[j]));
    }
    lemma_first_at_is(s, sep, i);
    assert(s.take(i) =~= head);
    assert(s.skip(i + 1) =~= tail);
}

/// The characters of `s`, in order.
pub fn to_chars(s: &str) -> (chars: Vec<char>)
    ensures
        chars@ == s@,
{
    let mut chars: Vec<char> = Vec::new();
    for c in it: s.chars()
        invariant
            it.seq() == s@,
            chars@ == s@.take(it.index() as int),
    {
        chars.push(c);
        assert(s@.take(it.index() + 1) =~= s@.take(it.index() as int).push(c));
    }
    assert(s@.take(s@.len() as int) =~= s@);
    chars
}

/// The characters of `s` from index `from` up to, not including, `to`.
pub fn slice(s: &Vec<char>, from: usize, to: usize) -> (part: Vec<char>)
    requires
        from <= to <= s.len(),
    ensures
        part@ == s@.subrange(from as int, to as int),
{
    let mut part: Vec<char> = Vec::new();
    let mut i: usize = from;
    while i < to
        invariant
            from <= i <= to <= s.len(),
            part@ == s@.subrange(from as int, i as int),
        decreases to - i,
    {
        part.push(s[i]);
        i += 1;
        assert(s@.subrange(from as int, i as int) =~= s@.subrange(from as int, i - 1).push(
            s@[i - 1],
        ));
    }
    part
}

/// The index of the first `sep` at or after `from`, or the length of `s`.
pub fn find(s: &Vec<char>, sep: char, from: usize) -> (at: usize)
    requires
        from <= s.len(),
    ensures
        at == from + first_at(s@.skip(from as int), sep),
        from <= at <= s.len(),
{
    let mut at: usize = from;
    while at < s.len() && s[at] != sep
        invariant
            from <= at <= s.len(),
            forall|j: int| from <= j < at ==> s@[j] != sep,
        decreases s.len() - at,
    {
        at += 1;
    }
    proof {
        lemma_first_at_is(s@.skip(from as int), sep, at - from);
    }
    at
}

/// One past the index of the last `c` in `s`, or zero when `s` holds none.
pub fn after_last(s: &Vec<char>, c: char) -> (at: usize)
    ensures
        at == last_at(s@, c) + 1,
        at <= s.len(),
{
    let mut at: usize = s.len();
    while at > 0 && s[at - 1] != c
        invariant
            at <= s.len(),
            forall|j: int| at <= j < s.len() ==> s@[j] != c,
        decreases at,
    {
        at -= 1;
    }
    proof {
        lemma_last_at_is(s@, c, at - 1);
    }
    at
}

/// Whether `s` begins with the characters of `prefix`.
pub fn has_prefix(s: &Vec<char>, prefix: &Vec<char>) -> (b: bool)
    ensures
        b == prefix@.is_prefix_of(s@),
{
    if prefix.len() > s.len() {
        return false;
    }
    let mut i: usize = 0;
    while i < prefix.len()
        invariant
            i <= prefix.len() <= s.len(),
            forall|j: int| 0 <= j < i ==> s@[j] == prefix@[j],
        decreases prefix.len() - i,
    {
        if s[i] != prefix[i] {
            assert(s@.subrange(0, prefix@.len() as int)[i as int] != prefix@[i as int]);
            return false;
        }
        i += 1;
    }
    assert(prefix@ =~= s@.subrange(0, prefix@.len() as int));
    true
}

/// `String::push` of std: the string afterwards is the string before with
/// `c` appended as its last character. Nothing else of it changes.
pub assume_specification[ String::push ](s: &mut String, c: char)
    ensures
        final(s)@ == old(s)@.push(c),
;

/// The string made of the characters of `chars`, in order.
pub fn to_text(chars: &Vec<char>) -> (text: String)
    ensures
        text@ == chars@,
{
    let mut text = String::new();
    let mut i: usize = 0;
    while i < chars.len()
        invariant
            i <= chars.len(),
            text@ == chars@.take(i as int),
        decreases chars.len() - i,
    {
        text.push(chars[i]);
        i += 1;
        assert(chars@.take(i as int) =~= chars@.take(i - 1).push(chars@[i - 1]));
    }
    assert(chars@.take(chars@.len() as int) =~= chars@);
    text
}

/// The `n`-th piece of `s` between occurrences of `sep`, counted from zero;
/// empty when `s` has fewer pieces.
pub fn field(s: &Vec<char>, sep: char, n: usize) -> (part: Vec<char>)
    ensures
        part@ == piece(s@, sep, n as nat),
{
    let mut pos: usize = 0;
    let mut k: usize = 0;
    assert(s@.skip(0) =~= s@);
    loop
        invariant
            pos <= s.len(),
            k <= n,
            piece(s@, sep, n as nat) == piece(s@.skip(pos as int), sep, (n - k) as nat),
        decreases s.len() - pos,
    {
        let end = find(s, sep, pos);
        let ghost rest = s@.skip(pos as int);
        assert(rest.take(end - pos) =~= s@.subrange(pos as int, end as int));
        assert(end < s.len() ==> rest.skip(end - pos + 1) =~= s@.skip(end + 1));
        assert(end == s.len() ==> rest =~= s@.subrange(pos as int, end as int));
        if k == n {
            return slice(s, pos, end);
        }
        if end == s.len() {
            return Vec::new();
        }
        assert(piece(rest, sep, (n - k) as nat) == piece(
            rest.skip(end - pos + 1),
            sep,
            (n - k - 1) as nat,
        ));
        pos = end + 1;
        k += 1;
    }
}

/// The index at which the run of blanks, or of characters that are no
/// blanks, that begins at `from` ends.
pub fn run_end(s: &Vec<char>, from: usize, blank: bool) -> (at: usize)
    requires
        from <= s.len(),
    ensures
        at == from + run_len(s@.skip(from as int), blank),
        from <= at <= s.len(),
{
    let mut at: usize = from;
    while at < s.len() && ((s[at] == ' ' || s[at] == '\t') == blank)
        invariant
            from <= at <= s.len(),
            forall|j: int| from <= j < at ==> is_blank(s@[j]) == blank,
        decreases s.len() - at,
    {
        at += 1;
    }
    proof {
        lemma_run_len_is(s@.skip(from as int), blank, at - from);
    }
    at
}

/// The first token of `s` at or after `from`.
pub fn word(s: &Vec<char>, from: usize) -> (part: Vec<char>)
    requires
        from <= s.len(),
    ensures
        part@ == first_word(s@.skip(from as int)),
{
    let start = run_end(s, from, true);
    let end = run_end(s, start, false);
    assert(s@.skip(from as int).skip(start - from) =~= s@.skip(start as int));
    assert(s@.skip(start as int).take(end - start) =~= s@.subrange(start as int, end as int));
    slice(s, start, end)
}

/// The lines of `s`, each without its line ending.
pub fn split_lines(s: &Vec<char>) -> (ls: Vec<Vec<char>>)
    ensures
        views(ls@) == lines(s@),
{
    let mut ls: Vec<Vec<char>> = Vec::new();
    let mut pos: usize = 0;
    assert(s@.skip(0) =~= s@);
    assert(views(ls@) + lines(s@) =~= lines(s@));
    while pos < s.len()
        invariant
            pos <= s.len(),
            lines(s@) == views(ls@) + lines(s@.skip(pos as int)),
        decreases s.len() - pos,
    {
        let end = find(s, '\n', pos);
        let ghost rest = s@.skip(pos as int);
        let ghost before = views(ls@);
        let stop = if end < s.len() && end > pos && s[end - 1] == '\r' {
            end - 1
        } else {
            end
        };
        let line = slice(s, pos, stop);
        ls.push(line);
        assert(views(ls@) =~= before.push(line@));
        if end < s.len() {
            assert(rest.skip(end - pos + 1) =~= s@.skip(end + 1));
            assert(line@ =~= strip_cr(rest.take(end - pos)));
            pos = end + 1;
        } else {
            assert(line@ =~= rest);
            assert(s@.skip(end as int).len() == 0);
            pos = end;
        }
        assert(lines(rest) =~= seq![line@] + lines(s@.skip(pos as int)));
        assert(before + lines(rest) =~= views(ls@) + lines(s@.skip(pos as int)));
    }
    assert(lines(s@.skip(pos as int)) =~= Seq::<Seq<char>>::empty());
    assert(views(ls@) + Seq::<Seq<char>>::empty() =~= views(ls@));
    ls
}

} // verus!
