//! Dialogue text: greedy word wrap into lines of bounded width, and a
//! scrollable window over the wrapped lines of several entries.

use vstd::prelude::*;

verus! {

/// Width of the dialogue box, in characters.
pub const TEXT_AREA_WIDTH: usize = 35;

/// Height of the dialogue box, in cell rows, frame included.
pub const TEXT_AREA_HEIGHT: usize = 9;

/// Number of wrapped lines that the dialogue box shows at once: its height
/// less one row of frame.
pub const VISIBLE_LINES: usize = TEXT_AREA_HEIGHT - 1;

/// Whether `c` separates words: whether it has the Unicode `White_Space`
/// property.
pub open spec fn is_blank(c: char) -> bool {
    let u = c as u32;
    (0x09 <= u <= 0x0d) || u == 0x20 || u == 0x85 || u == 0xa0 || u == 0x1680 || (0x2000 <= u
        <= 0x200a) || u == 0x2028 || u == 0x2029 || u == 0x202f || u == 0x205f || u == 0x3000
}

/// Whether `c` separates words.
pub fn is_blank_char(c: char) -> (r: bool)
    ensures
        r == is_blank(c),
{
    let u = c as u32;
    (0x09 <= u && u <= 0x0d) || u == 0x20 || u == 0x85 || u == 0xa0 || u == 0x1680 || (0x2000
        <= u && u <= 0x200a) || u == 0x2028 || u == 0x2029 || u == 0x202f || u == 0x205f || u
        == 0x3000
}

/// The words of `s`: its maximal runs of non-blank characters, in order.
pub open spec fn words(s: Seq<char>) -> Seq<Seq<char>>
    decreases s.len(),
{
    if s.len() == 0 {
        Seq::empty()
    } else {
        let before = words(s.drop_last());
        let c = s.last();
        if is_blank(c) {
            before
        } else if s.len() >= 2 && !is_blank(s[s.len() - 2]) {
            before.drop_last().push(before.last().push(c))
        } else {
            before.push(seq![c])
        }
    }
}

/// Places `word` after the lines built so far: on the last line, after one
/// space, when the line stays within `width` characters; else on a new line.
pub open spec fn place_word(lines: Seq<Seq<char>>, word: Seq<char>, width: nat) -> Seq<Seq<char>> {
    if lines.len() == 0 {
        seq![word]
    } else if lines.last().len() + 1 + word.len() <= width {
        lines.drop_last().push(lines.last() + seq![' '] + word)
    } else {
        lines.push(word)
    }
}

/// Greedy wrap of a sequence of words into lines.
pub open spec fn wrap_words(ws: Seq<Seq<char>>, width: nat) -> Seq<Seq<char>>
    decreases ws.len(),
{
    if ws.len() == 0 {
        Seq::empty()
    } else {
        place_word(wrap_words(ws.drop_last(), width), ws.last(), width)
    }
}

/// The lines that `text` wraps into at `width` characters. A word is never
/// split: one longer than `width` stands alone on its line.
pub open spec fn wrap_spec(text: Seq<char>, width: nat) -> Seq<Seq<char>> {
    wrap_words(words(text), width)
}

/// The character sequences of a list of strings.
pub open spec fn lines_view(lines: Seq<String>) -> Seq<Seq<char>> {
    lines.map_values(|l: String| l@)
}

/// The character spans `[start, end)` of the words of `text`, in order.
fn word_spans(text: &str) -> (r: Vec<(usize, usize)>)
    ensures
        r@.len() == words(text@).len(),
        forall|k: int|
            #![trigger r@[k]]
            0 <= k < r@.len() ==> r@[k].0 <= r@[k].1 <= text@.len() && text@.subrange(
                r@[k].0 as int,
                r@[k].1 as int,
            ) == words(text@)[k],
{
    let n = text.unicode_len();
    let ghost s = text@;
    let mut spans: Vec<(usize, usize)> = Vec::new();
    let mut in_word = false;
    let mut start: usize = 0;
    let mut i: usize = 0;
    while i < n
        invariant
            n == s.len(),
            s == text@,
            i <= n,
            in_word == (i > 0 && !is_blank(s[i - 1])),
            in_word ==> start < i && spans@.len() + 1 == words(s.take(i as int)).len()
                && s.subrange(start as int, i as int) == words(s.take(i as int)).last(),
            !in_word ==> spans@.len() == words(s.take(i as int)).len(),
            forall|k: int|
                #![trigger spans@[k]]
                0 <= k < spans@.len() ==> spans@[k].0 <= spans@[k].1 <= i && s.subrange(
                    spans@[k].0 as int,
                    spans@[k].1 as int,
                ) == words(s.take(i as int))[k],
        decreases n - i,
    {
        let c = text.get_char(i);
        proof {
            let next = s.take(i + 1);
            assert(next.drop_last() =~= s.take(i as int));
            assert(next.last() == c);
            if i > 0 {
                assert(next[next.len() - 2] == s[i - 1]);
            }
        }
        if is_blank_char(c) {
            if in_word {
                spans.push((start, i));
                in_word = false;
            }
        } else if in_word {
            proof {
                assert(s.subrange(start as int, i + 1) =~= s.subrange(start as int, i as int).push(
                    c,
                ));
            }
        } else {
            proof {
                assert(s.subrange(i as int, i + 1) =~= seq![c]);
            }
            start = i;
            in_word = true;
        }
        i = i + 1;
    }
    if in_word {
        spans.push((start, n));
    }
    proof {
        assert(s.take(n as int) =~= s);
    }
    spans
}

/// Wraps `text` greedily into lines of at most `max_width` characters: words
/// are separated by single spaces, and a word that does not fit after the
/// words already on the line starts a new one. A word longer than
/// `max_width` stands alone on its line, unsplit.
pub fn wrap_lines(text: &str, max_width: usize) -> (r: Vec<String>)
    ensures
        lines_view(r@) == wrap_spec(text@, max_width as nat),
{
    let spans = word_spans(text);
    let ghost ws = words(text@);
    let ghost width = max_width as nat;
    let mut lines: Vec<String> = Vec::new();
    let mut last_len: usize = 0;
    let mut k: usize = 0;
    proof {
        assert(ws.take(0) =~= Seq::<Seq<char>>::empty());
        assert(lines_view(lines@) =~= Seq::<Seq<char>>::empty());
    }
    while k < spans.len()
        invariant
            spans@.len() == ws.len(),
            ws == words(text@),
            width == max_width as nat,
            forall|j: int|
                #![trigger spans@[j]]
                0 <= j < spans@.len() ==> spans@[j].0 <= spans@[j].1 <= text@.len()
                    && text@.subrange(spans@[j].0 as int, spans@[j].1 as int) == ws[j],
            k <= spans@.len(),
            lines_view(lines@) == wrap_words(ws.take(k as int), width),
            lines@.len() > 0 ==> last_len == lines@.last()@.len(),
        decreases spans@.len() - k,
    {
        let (start, end) = spans[k];
        let word = text.substring_char(start, end);
        let word_len = end - start;
        let ghost prev = lines_view(lines@);
        proof {
            assert(ws.take(k + 1).drop_last() =~= ws.take(k as int));
            assert(ws.take(k + 1).last() == ws[k as int]);
            assert(word@ == ws[k as int]);
        }
        if lines.len() == 0 {
            lines.push(String::from_str(word));
            last_len = word_len;
            proof {
                assert(lines_view(lines@) =~= seq![word@]);
            }
        } else if word_len < max_width && last_len <= max_width - 1 - word_len {
            let mut line = lines.pop().unwrap();
            proof {
                reveal_strlit(" ");
                assert(" "@ =~= seq![' ']);
                assert(line@ == prev.last());
                assert(lines_view(lines@) =~= prev.drop_last());
            }
            line.append(" ");
            line.append(word);
            last_len = last_len + 1 + word_len;
            lines.push(line);
            proof {
                assert(lines_view(lines@) =~= prev.drop_last().push(
                    prev.last() + seq![' '] + word@,
                ));
            }
        } else {
            lines.push(String::from_str(word));
            last_len = word_len;
            proof {
                assert(lines_view(lines@) =~= prev.push(word@));
            }
        }
        k = k + 1;
    }
    proof {
        assert(ws.take(k as int) =~= ws);
    }
    lines
}

proof fn lemma_wrap_words_fit(ws: Seq<Seq<char>>, width: nat)
    ensures
        forall|i: int|
            0 <= i < wrap_words(ws, width).len() ==> wrap_words(ws, width)[i].len() <= width
                || ws.contains(#[trigger] wrap_words(ws, width)[i]),
    decreases ws.len(),
{
    if ws.len() > 0 {
        let rest = ws.drop_last();
        lemma_wrap_words_fit(rest, width);
        let before = wrap_words(rest, width);
        let after = wrap_words(ws, width);
        assert forall|i: int|
            0 <= i < after.len() implies after[i].len() <= width || ws.contains(
                #[trigger] after[i],
            ) by {
            if i < before.len() && after[i] == before[i] {
                if !(before[i].len() <= width) {
                    let j = choose|j: int| 0 <= j < rest.len() && rest[j] == before[i];
                    assert(ws[j] == before[i]);
                }
            } else {
                assert(ws[ws.len() - 1] == ws.last());
            }
        }
    }
}

/// Wrapped lines keep to the width: every line that `text` wraps into at
/// `width` has at most `width` characters, unless it is one word of `text`
/// that is longer on its own.
pub proof fn lemma_wrap_fits(text: Seq<char>, width: nat)
    ensures
        forall|i: int|
            0 <= i < wrap_spec(text, width).len() ==> wrap_spec(text, width)[i].len() <= width
                || words(text).contains(#[trigger] wrap_spec(text, width)[i]),
{
    lemma_wrap_words_fit(words(text), width);
}

/// `lines` joined with a newline between each two.
pub open spec fn join_lines(lines: Seq<Seq<char>>) -> Seq<char>
    decreases lines.len(),
{
    if lines.len() == 0 {
        Seq::empty()
    } else if lines.len() == 1 {
        lines[0]
    } else {
        join_lines(lines.drop_last()) + seq!['\n'] + lines.last()
    }
}

/// Wraps `text` as [`wrap_lines`] does and returns the lines joined by
/// newlines.
pub fn wrap_text(text: &str, max_width: usize) -> (r: String)
    ensures
        r@ == join_lines(wrap_spec(text@, max_width as nat)),
{
    let lines = wrap_lines(text, max_width);
    let ghost all = lines_view(lines@);
    let mut joined = String::new();
    let mut k: usize = 0;
    proof {
        reveal_strlit("\n");
        assert(all.take(0) =~= Seq::<Seq<char>>::empty());
    }
    while k < lines.len()
        invariant
            all == lines_view(lines@),
            k <= lines@.len(),
            joined@ == join_lines(all.take(k as int)),
            "\n"@ == seq!['\n'],
        decreases lines@.len() - k,
    {
        proof {
            assert(all.take(k + 1).drop_last() =~= all.take(k as int));
            assert(all.take(k + 1).last() == lines@[k as int]@);
        }
        if k > 0 {
            joined.append("\n");
        } else {
            assert(all.take(1) =~= seq![lines@[0]@]);
        }
        joined.append(lines[k].as_str());
        k = k + 1;
    }
    proof {
        assert(all.take(k as int) =~= all);
    }
    joined
}

/// The wrapped lines of all `entries`, in order.
pub open spec fn all_lines(entries: Seq<Seq<char>>, width: nat) -> Seq<Seq<char>>
    decreases entries.len(),
{
    if entries.len() == 0 {
        Seq::empty()
    } else {
        all_lines(entries.drop_last(), width) + wrap_spec(entries.last(), width)
    }
}

/// Wraps each entry at `max_width` and lists all the lines, entry after entry.
pub fn wrap_entries(entries: &Vec<String>, max_width: usize) -> (r: Vec<String>)
    ensures
        lines_view(r@) == all_lines(lines_view(entries@), max_width as nat),
{
    let ghost es = lines_view(entries@);
    let mut lines: Vec<String> = Vec::new();
    let mut k: usize = 0;
    proof {
        assert(es.take(0) =~= Seq::<Seq<char>>::empty());
        assert(lines_view(lines@) =~= Seq::<Seq<char>>::empty());
    }
    while k < entries.len()
        invariant
            es == lines_view(entries@),
            k <= entries@.len(),
            lines_view(lines@) == all_lines(es.take(k as int), max_width as nat),
        decreases entries@.len() - k,
    {
        let mut wrapped = wrap_lines(entries[k].as_str(), max_width);
        let ghost prev = lines@;
        let ghost more = wrapped@;
        lines.append(&mut wrapped);
        proof {
            assert(es.take(k + 1).drop_last() =~= es.take(k as int));
            assert(es.take(k + 1).last() == entries@[k as int]@);
            assert(lines@ == prev + more);
            assert(lines_view(lines@) =~= lines_view(prev) + lines_view(more));
        }
        k = k + 1;
    }
    proof {
        assert(es.take(k as int) =~= es);
    }
    lines
}

/// The largest useful scroll offset: the number of wrapped lines beyond the
/// first `visible_height`, or zero.
pub open spec fn spec_max_scroll(total: nat, visible_height: nat) -> nat {
    if total > visible_height {
        (total - visible_height) as nat
    } else {
        0
    }
}

/// The largest scroll offset for `entries` wrapped at `max_width` in a box of
/// `visible_height` lines.
pub fn max_scroll(entries: &Vec<String>, max_width: usize, visible_height: usize) -> (r: usize)
    ensures
        r == spec_max_scroll(
            all_lines(lines_view(entries@), max_width as nat).len(),
            visible_height as nat,
        ),
{
    let lines = wrap_entries(entries, max_width);
    lines.len().saturating_sub(visible_height)
}

/// `offset` brought into `[0, max_scroll]`.
pub fn clamp_scroll(offset: usize, max_scroll: usize) -> (r: usize)
    ensures
        r == (if offset <= max_scroll { offset } else { max_scroll }),
{
    if offset <= max_scroll {
        offset
    } else {
        max_scroll
    }
}

/// The window `[offset, offset + height)` of `lines`, cut to its bounds.
pub open spec fn window(lines: Seq<Seq<char>>, offset: nat, height: nat) -> Seq<Seq<char>> {
    let lo = if offset <= lines.len() { offset } else { lines.len() };
    let hi = if offset + height <= lines.len() { offset + height } else { lines.len() };
    lines.subrange(lo as int, hi as int)
}

/// The wrapped lines of `entries` that a box of `visible_height` lines shows
/// when scrolled down by `scroll_offset` lines. Near the end fewer lines come
/// back; past it, none.
pub fn paginate(
    entries: &Vec<String>,
    max_width: usize,
    visible_height: usize,
    scroll_offset: usize,
) -> (r: Vec<String>)
    ensures
        lines_view(r@) == window(
            all_lines(lines_view(entries@), max_width as nat),
            scroll_offset as nat,
            visible_height as nat,
        ),
{
    let lines = wrap_entries(entries, max_width);
    let ghost all = lines_view(lines@);
    let n = lines.len();
    let lo = if scroll_offset <= n { scroll_offset } else { n };
    let hi = if visible_height <= n - lo { lo + visible_height } else { n };
    let mut shown: Vec<String> = Vec::new();
    let mut k: usize = lo;
    while k < hi
        invariant
            all == lines_view(lines@),
            n == lines@.len(),
            lo <= k <= hi <= n,
            lines_view(shown@) == all.subrange(lo as int, k as int),
        decreases hi - k,
    {
        let line = lines[k].clone();
        let ghost prev = shown@;
        shown.push(line);
        proof {
            assert(line == lines@[k as int]);
            assert(lines_view(shown@) =~= lines_view(prev).push(line@));
            assert(lines_view(shown@) =~= all.subrange(lo as int, k + 1));
        }
        k = k + 1;
    }
    proof {
        assert(window(all, scroll_offset as nat, visible_height as nat) =~= all.subrange(
            lo as int,
            hi as int,
        ));
    }
    shown
}

} // verus!
