//! Small text utilities shared by the rest of the crate: character-level
//! editing of `String`s, decoding of raw bytes, and the few pieces of text
//! handling (line splitting, whitespace, decimal numbers) that the pane
//! manager and the terminal front end rely on.
use vstd::prelude::*;
use vstd::utf8::*;

verus! {

/// What `String::from_utf8_lossy` makes of a byte sequence.
pub uninterp spec fn utf8_lossy(bytes: Seq<u8>) -> Seq<char>;

/// What the `Debug` formatting of a `str` (`{:?}`) prints: the text in
/// double quotes with special characters escaped.
pub uninterp spec fn debug_quoted(text: Seq<char>) -> Seq<char>;

/// Calls `String::from_utf8_lossy` (and takes ownership of the result).
/// Claimed: the result is `utf8_lossy` of the bytes, a function of the bytes
/// alone; and, as the std documentation says, valid UTF-8 comes back as the
/// characters it encodes. Left unsaid: which characters replace invalid
/// sequences.
#[verifier::external_body]
pub(crate) fn lossy_text(bytes: &[u8]) -> (s: String)
    ensures
        s@ == utf8_lossy(bytes@),
        valid_utf8(bytes@) ==> s@ == decode_utf8(bytes@),
{
    String::from_utf8_lossy(bytes).into_owned()
}

/// Formats a `str` with `{:?}` (std's `Debug` for `str`).
/// Claimed: the result is `debug_quoted` of the text, a function of the text
/// alone. Left unsaid: the escaping rules themselves.
#[verifier::external_body]
pub(crate) fn debug_text(text: &str) -> (s: String)
    ensures
        s@ == debug_quoted(text@),
{
    format!("{:?}", text)
}

/// Calls `String::push`. Claimed: the character is appended.
#[verifier::external_body]
pub(crate) fn push_char(s: &mut String, c: char)
    ensures
        final(s)@ == old(s)@.push(c),
{
    s.push(c)
}

/// Calls `String::pop`. Claimed: the last character, if any, is removed and
/// returned; an empty string is left as it is.
#[verifier::external_body]
pub(crate) fn pop_char(s: &mut String) -> (c: Option<char>)
    ensures
        old(s)@.len() == 0 ==> c is None && final(s)@ == old(s)@,
        old(s)@.len() > 0 ==> c == Some(old(s)@.last()) && final(s)@ == old(s)@.drop_last(),
{
    s.pop()
}

/// The characters of a string slice, in order.
pub fn chars_of(s: &str) -> (v: Vec<char>)
    ensures
        v@ == s@,
{
    let mut v: Vec<char> = Vec::new();
    for c in it: s.chars()
        invariant
            v@ == it.seq().take(it.index() as int),
            it.seq() == s@,
    {
        v.push(c);
    }
    v
}

/// A string made of the given characters.
pub fn string_of(cs: &Vec<char>) -> (s: String)
    ensures
        s@ == cs@,
{
    let mut s = String::new();
    let mut i: usize = 0;
    while i < cs.len()
        invariant
            i <= cs.len(),
            s@ == cs@.take(i as int),
        decreases cs.len() - i,
    {
        push_char(&mut s, cs[i]);
        assert(cs@.take(i as int).push(cs@[i as int]) =~= cs@.take(i + 1));
        i += 1;
    }
    assert(cs@.take(cs.len() as int) =~= cs@);
    s
}

/// Concatenation of `parts` with `sep` between each two of them.
pub open spec fn join_with(parts: Seq<Seq<char>>, sep: Seq<char>) -> Seq<char>
    decreases parts.len(),
{
    if parts.len() == 0 {
        Seq::empty()
    } else if parts.len() == 1 {
        parts[0]
    } else {
        join_with(parts.drop_last(), sep) + sep + parts.last()
    }
}

pub open spec fn string_seqs(v: Seq<String>) -> Seq<Seq<char>> {
    v.map_values(|s: String| s@)
}

/// The strings of `parts` joined with `sep` between them (`[..].join(sep)`).
pub fn join_strings(parts: &Vec<String>, sep: &str) -> (s: String)
    ensures
        s@ == join_with(string_seqs(parts@), sep@),
{
    let mut s = String::new();
    let mut i: usize = 0;
    while i < parts.len()
        invariant
            i <= parts.len(),
            s@ == join_with(string_seqs(parts@).take(i as int), sep@),
        decreases parts.len() - i,
    {
        let ghost prev = string_seqs(parts@).take(i as int);
        let ghost next = string_seqs(parts@).take(i + 1);
        assert(next.drop_last() =~= prev);
        assert(next.last() == parts@[i as int]@);
        if i > 0 {
            s.append(sep);
        } else {
            assert(next =~= seq![parts@[0]@]);
        }
        s.append(parts[i].as_str());
        i += 1;
    }
    assert(string_seqs(parts@).take(parts.len() as int) =~= string_seqs(parts@));
    s
}

/// The pieces of `t` between newlines (`str::split('\n')`): one more piece
/// than there are newlines.
pub open spec fn split_newlines(t: Seq<char>) -> Seq<Seq<char>>
    decreases t.len(),
{
    if t.len() == 0 {
        seq![Seq::<char>::empty()]
    } else {
        let p = split_newlines(t.drop_last());
        if t.last() == '\n' {
            p.push(Seq::empty())
        } else {
            p.update(p.len() - 1, p.last().push(t.last()))
        }
    }
}

pub proof fn lemma_split_newlines_len(t: Seq<char>)
    ensures
        split_newlines(t).len() >= 1,
    decreases t.len(),
{
    if t.len() > 0 {
        lemma_split_newlines_len(t.drop_last());
    }
}

/// A line without the `\r` of a `\r\n` ending.
pub open spec fn strip_cr(l: Seq<char>) -> Seq<char> {
    if l.len() > 0 && l.last() == '\r' {
        l.drop_last()
    } else {
        l
    }
}

/// The lines of `t` as `str::lines` gives them: split at `\n`, a final line
/// ending is optional (no empty last line for it), and a `\r` just before a
/// `\n` is dropped.
pub open spec fn text_lines(t: Seq<char>) -> Seq<Seq<char>> {
    let parts = split_newlines(t);
    let k = parts.len() - 1;
    Seq::new(
        if parts[k].len() == 0 {
            k as nat
        } else {
            (k + 1) as nat
        },
        |i: int|
            if i < k {
                strip_cr(parts[i])
            } else {
                parts[i]
            },
    )
}

/// The pieces of `cs` between newlines, each as characters.
pub fn split_newlines_exec(cs: &Vec<char>) -> (parts: Vec<Vec<char>>)
    ensures
        parts@.map_values(|p: Vec<char>| p@) == split_newlines(cs@),
{
    let mut done: Vec<Vec<char>> = Vec::new();
    let mut cur: Vec<char> = Vec::new();
    let mut i: usize = 0;
    assert(cs@.take(0) =~= Seq::<char>::empty());
    assert(done@.map_values(|p: Vec<char>| p@).push(cur@) =~= seq![Seq::<char>::empty()]);
    while i < cs.len()
        invariant
            i <= cs.len(),
            split_newlines(cs@.take(i as int)) == done@.map_values(|p: Vec<char>| p@).push(cur@),
        decreases cs.len() - i,
    {
        let c = cs[i];
        let ghost before = done@.map_values(|p: Vec<char>| p@).push(cur@);
        assert(cs@.take(i + 1).drop_last() =~= cs@.take(i as int));
        assert(cs@.take(i + 1).last() == c);
        if c == '\n' {
            let line = cur;
            done.push(line);
            cur = Vec::new();
        } else {
            cur.push(c);
        }
        assert(done@.map_values(|p: Vec<char>| p@).push(cur@) =~= split_newlines(
            cs@.take(i + 1),
        ));
        i += 1;
    }
    assert(cs@.take(cs.len() as int) =~= cs@);
    let ghost all = done@.map_values(|p: Vec<char>| p@).push(cur@);
    done.push(cur);
    assert(done@.map_values(|p: Vec<char>| p@) =~= all);
    done
}

/// The lines of a text, as `str::lines` gives them.
pub fn text_lines_exec(text: &str) -> (lines: Vec<Vec<char>>)
    ensures
        lines@.map_values(|p: Vec<char>| p@) == text_lines(text@),
{
    let cs = chars_of(text);
    let mut parts = split_newlines_exec(&cs);
    proof {
        lemma_split_newlines_len(cs@);
    }
    let ghost pv = parts@.map_values(|p: Vec<char>| p@);
    let k = parts.len() - 1;
    let keep = if parts[k].len() == 0 {
        k
    } else {
        k + 1
    };
    let mut lines: Vec<Vec<char>> = Vec::new();
    let mut i: usize = 0;
    while i < keep
        invariant
            i <= keep,
            keep <= parts.len(),
            k == parts.len() - 1,
            pv == parts@.map_values(|p: Vec<char>| p@),
            pv == split_newlines(cs@),
            cs@ == text@,
            keep == text_lines(text@).len(),
            lines@.map_values(|p: Vec<char>| p@) =~= text_lines(text@).take(i as int),
        decreases keep - i,
    {
        let mut line = parts[i].clone();
        assert(line@ == pv[i as int]);
        if i < k && line.len() > 0 && line[line.len() - 1] == '\r' {
            line.pop();
        }
        assert(line@ == text_lines(text@)[i as int]);
        let ghost prev = lines@;
        lines.push(line);
        assert(lines@.map_values(|p: Vec<char>| p@) =~= prev.map_values(|p: Vec<char>| p@).push(
            line@,
        ));
        i += 1;
    }
    assert(text_lines(text@).take(keep as int) =~= text_lines(text@));
    lines
}

pub open spec fn char_seqs(v: Seq<Vec<char>>) -> Seq<Seq<char>> {
    v.map_values(|p: Vec<char>| p@)
}

/// The last `n` of `lines` (all of them if there are fewer), in order.
pub open spec fn last_lines(lines: Seq<Seq<char>>, n: nat) -> Seq<Seq<char>> {
    if n >= lines.len() {
        lines
    } else {
        lines.skip(lines.len() - n)
    }
}

/// The last `n` lines of `text`, joined with `\n`.
pub open spec fn tail_text(text: Seq<char>, n: nat) -> Seq<char> {
    join_with(last_lines(text_lines(text), n), seq!['\n'])
}

/// Law: the tail of a text keeps its last lines, not its first ones. With `L`
/// the text's lines (as `str::lines` counts them) and `k = min(n, |L|)`,
/// `tail_text(t, n)` is the last `k` lines of `L`, in order, joined with
/// `\n`: exactly `k` lines, and a suffix of `L`.
pub proof fn lemma_tail_text(t: Seq<char>, n: nat)
    ensures
        ({
            let ls = text_lines(t);
            let k = if n < ls.len() {
                n
            } else {
                ls.len()
            };
            let kept = ls.subrange(ls.len() - k, ls.len() as int);
            &&& kept.len() == k
            &&& forall|i: int| 0 <= i < k ==> #[trigger] kept[i] == ls[ls.len() - k + i]
            &&& tail_text(t, n) == join_with(kept, seq!['\n'])
        }),
{
    let ls = text_lines(t);
    if n >= ls.len() {
        assert(ls.subrange(0, ls.len() as int) =~= ls);
    } else {
        assert(ls.subrange(ls.len() - n, ls.len() as int) =~= ls.skip(ls.len() - n));
    }
}

/// The pieces `parts[from..]` joined with `sep` between them, as characters.
pub fn join_char_pieces(parts: &Vec<Vec<char>>, from: usize, sep: char) -> (out: Vec<char>)
    requires
        from <= parts.len(),
    ensures
        out@ == join_with(char_seqs(parts@).skip(from as int), seq![sep]),
{
    let ghost all = char_seqs(parts@).skip(from as int);
    let mut out: Vec<char> = Vec::new();
    let mut i: usize = from;
    assert(all.take(0) =~= Seq::<Seq<char>>::empty());
    while i < parts.len()
        invariant
            from <= i <= parts.len(),
            all == char_seqs(parts@).skip(from as int),
            out@ == join_with(all.take(i - from), seq![sep]),
        decreases parts.len() - i,
    {
        let ghost prev = all.take(i - from);
        let ghost next = all.take(i - from + 1);
        assert(next.drop_last() =~= prev);
        assert(next.last() == parts@[i as int]@);
        let ghost before = out@;
        if i > from {
            out.push(sep);
        } else {
            assert(next =~= seq![parts@[i as int]@]);
        }
        let piece = &parts[i];
        let mut j: usize = 0;
        let ghost mid = out@;
        while j < piece.len()
            invariant
                j <= piece.len(),
                out@ == mid + piece@.take(j as int),
            decreases piece.len() - j,
        {
            out.push(piece[j]);
            assert(piece@.take(j as int).push(piece@[j as int]) =~= piece@.take(j + 1));
            assert(mid + piece@.take(j + 1) =~= (mid + piece@.take(j as int)).push(piece@[j as int]));
            j += 1;
        }
        assert(piece@.take(piece.len() as int) =~= piece@);
        if i > from {
            assert(mid =~= before + seq![sep]);
        }
        i += 1;
    }
    assert(all.take(parts.len() - from) =~= all);
    out
}

/// The last `n` lines of `text` joined with `\n`
/// (`text.lines().rev().take(n)`, put back in order and joined).
pub fn tail_lines(text: &str, n: usize) -> (out: String)
    ensures
        out@ == tail_text(text@, n as nat),
{
    let lines = text_lines_exec(text);
    let from = if n >= lines.len() {
        0
    } else {
        lines.len() - n
    };
    let cs = join_char_pieces(&lines, from, '\n');
    proof {
        let ls = text_lines(text@);
        if n >= ls.len() {
            assert(char_seqs(lines@).skip(0) =~= ls);
        }
    }
    string_of(&cs)
}

/// Whitespace as `char::is_whitespace` has it (the Unicode `White_Space` property).
pub open spec fn is_white(c: char) -> bool {
    ||| ('\u{9}' <= c <= '\u{d}')
    ||| c == ' '
    ||| c == '\u{85}'
    ||| c == '\u{a0}'
    ||| c == '\u{1680}'
    ||| ('\u{2000}' <= c <= '\u{200a}')
    ||| c == '\u{2028}'
    ||| c == '\u{2029}'
    ||| c == '\u{202f}'
    ||| c == '\u{205f}'
    ||| c == '\u{3000}'
}

pub fn is_white_exec(c: char) -> (b: bool)
    ensures
        b == is_white(c),
{
    ('\u{9}' <= c && c <= '\u{d}') || c == ' ' || c == '\u{85}' || c == '\u{a0}' || c
        == '\u{1680}' || ('\u{2000}' <= c && c <= '\u{200a}') || c == '\u{2028}' || c
        == '\u{2029}' || c == '\u{202f}' || c == '\u{205f}' || c == '\u{3000}'
}

pub open spec fn trim_start(t: Seq<char>) -> Seq<char>
    decreases t.len(),
{
    if t.len() > 0 && is_white(t[0]) {
        trim_start(t.drop_first())
    } else {
        t
    }
}

pub open spec fn trim_end(t: Seq<char>) -> Seq<char>
    decreases t.len(),
{
    if t.len() > 0 && is_white(t.last()) {
        trim_end(t.drop_last())
    } else {
        t
    }
}

/// `str::trim`: the text without leading and trailing whitespace.
pub open spec fn trim(t: Seq<char>) -> Seq<char> {
    trim_end(trim_start(t))
}

proof fn lemma_trim_start_skip(t: Seq<char>, i: int)
    requires
        0 <= i <= t.len(),
        forall|k: int| 0 <= k < i ==> is_white(#[trigger] t[k]),
    ensures
        trim_start(t) == trim_start(t.skip(i)),
    decreases i,
{
    if i > 0 {
        assert(t.drop_first().skip(i - 1) =~= t.skip(i));
        lemma_trim_start_skip(t.drop_first(), i - 1);
    } else {
        assert(t.skip(0) =~= t);
    }
}

proof fn lemma_trim_end_take(t: Seq<char>, j: int)
    requires
        0 <= j <= t.len(),
        forall|k: int| j <= k < t.len() ==> is_white(#[trigger] t[k]),
    ensures
        trim_end(t) == trim_end(t.take(j)),
    decreases t.len() - j,
{
    if j < t.len() {
        assert(t.drop_last().take(j) =~= t.take(j));
        lemma_trim_end_take(t.drop_last(), j);
    } else {
        assert(t.take(j) =~= t);
    }
}

/// The text with leading and trailing whitespace removed.
pub fn trim_chars(cs: &Vec<char>) -> (out: Vec<char>)
    ensures
        out@ == trim(cs@),
{
    let mut a: usize = 0;
    while a < cs.len() && is_white_exec(cs[a])
        invariant
            a <= cs.len(),
            forall|k: int| 0 <= k < a ==> is_white(#[trigger] cs@[k]),
        decreases cs.len() - a,
    {
        a += 1;
    }
    proof {
        lemma_trim_start_skip(cs@, a as int);
    }
    let mut b: usize = cs.len();
    while b > a && is_white_exec(cs[b - 1])
        invariant
            a <= b <= cs.len(),
            forall|k: int| b <= k < cs.len() ==> is_white(#[trigger] cs@[k]),
        decreases b - a,
    {
        b -= 1;
    }
    let ghost rest = cs@.skip(a as int);
    proof {
        assert(rest.len() > 0 ==> !is_white(rest[0]));
        assert(trim_start(rest) == rest);
        assert forall|k: int| b - a <= k < rest.len() implies is_white(#[trigger] rest[k]) by {
            assert(rest[k] == cs@[a + k]);
        }
        lemma_trim_end_take(rest, b - a);
        let r = rest.take(b - a);
        assert(r.len() > 0 ==> r.last() == cs@[b - 1]);
    }
    let mut out: Vec<char> = Vec::new();
    let mut i: usize = a;
    while i < b
        invariant
            a <= i <= b,
            b <= cs.len(),
            out@ == cs@.subrange(a as int, i as int),
        decreases b - i,
    {
        out.push(cs[i]);
        assert(cs@.subrange(a as int, i + 1) =~= cs@.subrange(a as int, i as int).push(
            cs@[i as int],
        ));
        i += 1;
    }
    assert(out@ =~= rest.take(b - a));
    out
}

/// The maximal runs of non-whitespace characters of `t`, in order
/// (`str::split_whitespace`).
pub open spec fn words(t: Seq<char>) -> Seq<Seq<char>>
    decreases t.len(),
{
    if t.len() == 0 {
        Seq::empty()
    } else {
        let p = words(t.drop_last());
        let c = t.last();
        if is_white(c) {
            p
        } else if t.len() >= 2 && !is_white(t[t.len() - 2]) {
            p.update(p.len() - 1, p.last().push(c))
        } else {
            p.push(seq![c])
        }
    }
}

/// The whitespace-separated words of a text.
pub fn split_words(text: &str) -> (out: Vec<String>)
    ensures
        string_seqs(out@) == words(text@),
{
    let cs = chars_of(text);
    let mut out: Vec<String> = Vec::new();
    let mut cur: Vec<char> = Vec::new();
    let mut i: usize = 0;
    assert(cs@.take(0) =~= Seq::<char>::empty());
    while i < cs.len()
        invariant
            i <= cs.len(),
            cs@ == text@,
            (i == 0 || is_white(cs@[i - 1])) ==> cur@.len() == 0 && string_seqs(out@) == words(
                cs@.take(i as int),
            ),
            !(i == 0 || is_white(cs@[i - 1])) ==> cur@.len() > 0 && string_seqs(out@).push(cur@)
                == words(cs@.take(i as int)),
        decreases cs.len() - i,
    {
        let c = cs[i];
        let ghost t = cs@.take(i + 1);
        assert(t.drop_last() =~= cs@.take(i as int));
        assert(t.last() == c);
        if i >= 1 {
            assert(t[t.len() - 2] == cs@[i - 1]);
        }
        if is_white_exec(c) {
            if cur.len() > 0 {
                let w = string_of(&cur);
                let ghost prev = out@;
                out.push(w);
                assert(string_seqs(out@) =~= string_seqs(prev).push(cur@));
                cur = Vec::new();
            }
        } else {
            let ghost prev_cur = cur@;
            cur.push(c);
            proof {
                if i == 0 || is_white(cs@[i - 1]) {
                    assert(cur@ =~= seq![c]);
                } else {
                    let p = words(cs@.take(i as int));
                    assert(string_seqs(out@).push(prev_cur).update(p.len() - 1, prev_cur.push(c))
                        =~= string_seqs(out@).push(cur@));
                }
            }
        }
        i += 1;
    }
    assert(cs@.take(cs.len() as int) =~= cs@);
    if cur.len() > 0 {
        let w = string_of(&cur);
        let ghost prev = out@;
        out.push(w);
        assert(string_seqs(out@) =~= string_seqs(prev).push(cur@));
    }
    out
}

pub open spec fn digit_char(d: nat) -> char {
    if d == 0 {
        '0'
    } else if d == 1 {
        '1'
    } else if d == 2 {
        '2'
    } else if d == 3 {
        '3'
    } else if d == 4 {
        '4'
    } else if d == 5 {
        '5'
    } else if d == 6 {
        '6'
    } else if d == 7 {
        '7'
    } else if d == 8 {
        '8'
    } else {
        '9'
    }
}

/// The decimal notation of a number, as `Display` prints it.
pub open spec fn decimal(n: nat) -> Seq<char>
    decreases n,
{
    if n < 10 {
        seq![digit_char(n)]
    } else {
        decimal(n / 10).push(digit_char(n % 10))
    }
}

fn digit_char_exec(d: u64) -> (c: char)
    requires
        d < 10,
    ensures
        c == digit_char(d as nat),
{
    if d == 0 {
        '0'
    } else if d == 1 {
        '1'
    } else if d == 2 {
        '2'
    } else if d == 3 {
        '3'
    } else if d == 4 {
        '4'
    } else if d == 5 {
        '5'
    } else if d == 6 {
        '6'
    } else if d == 7 {
        '7'
    } else if d == 8 {
        '8'
    } else {
        '9'
    }
}

/// The decimal notation of `n`, appended to `s`.
pub fn push_decimal(s: &mut String, n: u64)
    ensures
        final(s)@ == old(s)@ + decimal(n as nat),
    decreases n,
{
    if n < 10 {
        push_char(s, digit_char_exec(n));
        assert(old(s)@.push(digit_char(n as nat)) =~= old(s)@ + decimal(n as nat));
    } else {
        push_decimal(s, n / 10);
        push_char(s, digit_char_exec(n % 10));
        assert((old(s)@ + decimal((n / 10) as nat)).push(digit_char((n % 10) as nat))
            =~= old(s)@ + decimal(n as nat));
    }
}

/// The text padded with spaces on the right to `width` characters, as the
/// `{:<width}` format does (longer text is left as it is).
pub open spec fn pad_right(t: Seq<char>, width: nat) -> Seq<char> {
    if t.len() >= width {
        t
    } else {
        t + Seq::new((width - t.len()) as nat, |i: int| ' ')
    }
}

/// Appends `text` padded to `width` characters.
pub fn push_padded(s: &mut String, text: &str, width: usize)
    ensures
        final(s)@ == old(s)@ + pad_right(text@, width as nat),
{
    s.append(text);
    let n = text.unicode_len();
    let mut k = n;
    let ghost base = old(s)@ + text@;
    while k < width
        invariant
            n == text@.len(),
            n <= k <= width || (k == n && n >= width),
            k >= width ==> k == n || k == width,
            s@ == base + Seq::new((k - n) as nat, |i: int| ' '),
        decreases width - k,
    {
        push_char(s, ' ');
        assert(base + Seq::new((k + 1 - n) as nat, |i: int| ' ') =~= (base + Seq::new(
            (k - n) as nat,
            |i: int| ' ',
        )).push(' '));
        k += 1;
    }
    if n >= width {
        assert(s@ =~= base);
    }
}

pub open spec fn is_digit(c: char) -> bool {
    '0' <= c <= '9'
}

pub open spec fn digit_value(c: char) -> nat {
    (c as u32 - '0' as u32) as nat
}

/// The number that a string of decimal digits denotes.
pub open spec fn digits_value(d: Seq<char>) -> nat
    decreases d.len(),
{
    if d.len() == 0 {
        0
    } else {
        digits_value(d.drop_last()) * 10 + digit_value(d.last())
    }
}

/// The digits of an unsigned number's text: an optional leading `+` is dropped.
pub open spec fn unsigned_digits(t: Seq<char>) -> Seq<char> {
    if t.len() > 0 && t[0] == '+' {
        t.drop_first()
    } else {
        t
    }
}

/// What `usize::from_str` makes of a text: an optional `+`, then at least
/// one decimal digit and nothing else, denoting a number that fits.
pub open spec fn parse_usize_spec(t: Seq<char>) -> Option<nat> {
    let d = unsigned_digits(t);
    if d.len() > 0 && (forall|i: int| 0 <= i < d.len() ==> is_digit(#[trigger] d[i]))
        && digits_value(d) <= usize::MAX {
        Some(digits_value(d))
    } else {
        None
    }
}

proof fn lemma_digits_value_grows(d: Seq<char>, k: int)
    requires
        0 <= k <= d.len(),
        forall|i: int| 0 <= i < d.len() ==> is_digit(#[trigger] d[i]),
    ensures
        digits_value(d.take(k)) <= digits_value(d),
    decreases d.len() - k,
{
    if k < d.len() {
        lemma_digits_value_grows(d, k + 1);
        assert(d.take(k + 1).drop_last() =~= d.take(k));
    } else {
        assert(d.take(k) =~= d);
    }
}

/// Parses an unsigned number as `str::parse::<usize>` does.
pub fn parse_usize(text: &str) -> (r: Option<usize>)
    ensures
        r matches Some(v) ==> parse_usize_spec(text@) == Some(v as nat),
        r is None ==> parse_usize_spec(text@) is None,
{
    let cs = chars_of(text);
    let start: usize = if cs.len() > 0 && cs[0] == '+' {
        1
    } else {
        0
    };
    let ghost d = unsigned_digits(text@);
    proof {
        assert(d =~= cs@.skip(start as int));
    }
    if start >= cs.len() {
        return None;
    }
    let mut v: usize = 0;
    let mut i: usize = start;
    assert(d.take(0) =~= Seq::<char>::empty());
    while i < cs.len()
        invariant
            start <= i <= cs.len(),
            d == cs@.skip(start as int),
            d == unsigned_digits(text@),
            v == digits_value(d.take(i - start)),
            forall|k: int| 0 <= k < i - start ==> is_digit(#[trigger] d[k]),
        decreases cs.len() - i,
    {
        let c = cs[i];
        assert(d[i - start] == c);
        assert(d.take(i - start + 1).drop_last() =~= d.take(i - start));
        if c < '0' || c > '9' {
            assert(!is_digit(d[i - start]));
            return None;
        }
        let dv = (c as u32 - '0' as u32) as usize;
        let next = match v.checked_mul(10) {
            Some(m) => m.checked_add(dv),
            None => None,
        };
        match next {
            Some(n) => {
                v = n;
            },
            None => {
                proof {
                    assert(digit_value(c) == dv);
                    assert(digits_value(d.take(i - start + 1)) == v * 10 + dv);
                    assert(digits_value(d.take(i - start + 1)) > usize::MAX);
                    if forall|k: int| 0 <= k < d.len() ==> is_digit(#[trigger] d[k]) {
                        lemma_digits_value_grows(d, i - start + 1);
                    }
                }
                return None;
            },
        }
        i += 1;
    }
    assert(d.take(cs.len() - start) =~= d);
    Some(v)
}

/// A copy of a list of strings.
pub fn clone_strings(v: &Vec<String>) -> (r: Vec<String>)
    ensures
        r@ == v@,
{
    let mut r: Vec<String> = Vec::new();
    let mut i: usize = 0;
    while i < v.len()
        invariant
            i <= v.len(),
            r@ == v@.take(i as int),
        decreases v.len() - i,
    {
        r.push(v[i].clone());
        assert(v@.take(i as int).push(v@[i as int]) =~= v@.take(i + 1));
        i += 1;
    }
    assert(v@.take(v.len() as int) =~= v@);
    r
}

/// Whether two texts are the same.
pub fn text_eq(a: &str, b: &str) -> (r: bool)
    ensures
        r == (a@ == b@),
{
    let x = chars_of(a);
    let y = chars_of(b);
    if x.len() != y.len() {
        return false;
    }
    let mut i: usize = 0;
    while i < x.len()
        invariant
            i <= x.len(),
            x.len() == y.len(),
            x@ == a@,
            y@ == b@,
            forall|k: int| 0 <= k < i ==> x@[k] == y@[k],
        decreases x.len() - i,
    {
        if x[i] != y[i] {
            return false;
        }
        i += 1;
    }
    assert(x@ =~= y@);
    true
}

} // verus!
