//! Character-window text splitting.
use vstd::prelude::*;
use vstd::string::*;

use crate::text::{all_ws, is_blank, strings_view};

verus! {

/// How far each window advances: the window minus the overlap, but never
/// less than one character, so an overlap at or above the window degrades
/// the overlap instead of never advancing.
pub open spec fn chunk_step(max_chars: usize, overlap_chars: usize) -> nat {
    if max_chars > overlap_chars {
        (max_chars - overlap_chars) as nat
    } else {
        1
    }
}

/// The end of the window that starts at `start`.
pub open spec fn window_end(len: nat, start: nat, max_chars: nat) -> nat {
    if start + max_chars < len {
        start + max_chars
    } else {
        len
    }
}

/// The windows from `start` on: each at most `max_chars` characters, each
/// starting `step` after the previous one, the last one reaching the end.
pub open spec fn windows_from(chars: Seq<char>, start: nat, max_chars: nat, step: nat) -> Seq<Seq<char>>
    recommends
        step > 0,
    decreases (if chars.len() > start { chars.len() - start } else { 0 }),
    when step > 0
{
    if start >= chars.len() {
        Seq::empty()
    } else {
        let end = window_end(chars.len(), start, max_chars);
        let w = chars.subrange(start as int, end as int);
        if end == chars.len() {
            seq![w]
        } else {
            seq![w] + windows_from(chars, start + step, max_chars, step)
        }
    }
}

/// `chunk_text`'s result: nothing for blank text or a zero window; the whole
/// text when it fits in one window; otherwise the overlapping windows.
pub open spec fn chunk_text_spec(text: Seq<char>, max_chars: usize, overlap_chars: usize) -> Seq<Seq<char>> {
    if all_ws(text) || max_chars == 0 {
        Seq::empty()
    } else if text.len() <= max_chars {
        seq![text]
    } else {
        windows_from(text, 0, max_chars as nat, chunk_step(max_chars, overlap_chars))
    }
}

/// Split `text` into overlapping windows of at most `max_chars` characters
/// (not bytes, so a multi-byte character is never split).
///
/// Returns nothing for empty or whitespace-only input: there is nothing worth
/// embedding, and an empty chunk would cost an embedding call and occupy a
/// point id forever.
pub fn chunk_text(text: &str, max_chars: usize, overlap_chars: usize) -> (r: Vec<String>)
    ensures
        strings_view(r@) == chunk_text_spec(text@, max_chars, overlap_chars),
{
    if is_blank(text) || max_chars == 0 {
        let v: Vec<String> = Vec::new();
        assert(strings_view(v@) =~= Seq::<Seq<char>>::empty());
        return v;
    }
    let n = text.unicode_len();
    if n <= max_chars {
        let mut v: Vec<String> = Vec::new();
        v.push(text.to_owned());
        assert(strings_view(v@) =~= seq![text@]);
        return v;
    }
    let step: usize = if max_chars > overlap_chars { max_chars - overlap_chars } else { 1 };
    let ghost all = windows_from(text@, 0, max_chars as nat, step as nat);
    assert(chunk_text_spec(text@, max_chars, overlap_chars) == all);
    let mut chunks: Vec<String> = Vec::new();
    let mut start: usize = 0;
    loop
        invariant
            n == text@.len(),
            n > max_chars,
            max_chars > 0,
            step as nat == chunk_step(max_chars, overlap_chars),
            step > 0,
            start < n,
            all == windows_from(text@, 0, max_chars as nat, step as nat),
            chunk_text_spec(text@, max_chars, overlap_chars) == all,
            all == strings_view(chunks@) + windows_from(text@, start as nat, max_chars as nat, step as nat),
        decreases n - start,
    {
        let end: usize = if max_chars < n - start { start + max_chars } else { n };
        assert(end as nat == window_end(n as nat, start as nat, max_chars as nat));
        let piece = text.substring_char(start, end).to_owned();
        let ghost before = chunks@;
        chunks.push(piece);
        assert(strings_view(chunks@) =~= strings_view(before).push(piece@));
        if end == n {
            assert(windows_from(text@, start as nat, max_chars as nat, step as nat) =~= seq![piece@]);
            assert(all =~= strings_view(chunks@));
            return chunks;
        }
        assert(windows_from(text@, start as nat, max_chars as nat, step as nat) =~= seq![piece@]
            + windows_from(text@, (start + step) as nat, max_chars as nat, step as nat));
        assert(all =~= strings_view(chunks@) + windows_from(text@, (start + step) as nat, max_chars as nat, step as nat));
        start = start + step;
    }
}


/// `w` is the window of `chars` that starts at `at`.
pub open spec fn is_window(chars: Seq<char>, at: int, max_chars: nat, w: Seq<char>) -> bool {
    &&& 0 <= at < chars.len()
    &&& w == chars.subrange(at, window_end(chars.len(), at as nat, max_chars) as int)
}

proof fn lemma_windows_from(chars: Seq<char>, start: nat, max_chars: nat, step: nat)
    requires
        0 < step <= max_chars,
    ensures
        start < chars.len() ==> windows_from(chars, start, max_chars, step).len() >= 1,
        forall|i: int| #![trigger windows_from(chars, start, max_chars, step)[i]]
            0 <= i < windows_from(chars, start, max_chars, step).len() ==>
                1 <= windows_from(chars, start, max_chars, step)[i].len() <= max_chars,
        forall|i: int| #![trigger windows_from(chars, start, max_chars, step)[i]]
            0 <= i < windows_from(chars, start, max_chars, step).len() ==>
            is_window(chars, start + i * step, max_chars, windows_from(chars, start, max_chars, step)[i]),
        windows_from(chars, start, max_chars, step).len() >= 1 ==>
            window_end(chars.len(), (start + (windows_from(chars, start, max_chars, step).len() - 1) * step) as nat, max_chars) == chars.len(),
        forall|i: int| 0 <= i < windows_from(chars, start, max_chars, step).len() - 1 ==> #[trigger] (start + i * step) + max_chars < chars.len(),
    decreases (if chars.len() > start { chars.len() - start } else { 0 }),
{
    let r = windows_from(chars, start, max_chars, step);
    if start >= chars.len() {
        assert(r.len() == 0);
    } else {
        let end = window_end(chars.len(), start, max_chars);
        if end == chars.len() {
            assert(r.len() == 1);
            assert forall|i: int| #![trigger r[i]] 0 <= i < r.len() implies
                is_window(chars, start + i * step, max_chars, r[i]) && 1 <= r[i].len() <= max_chars
            by {
                assert(i == 0);
                assert(i * step == 0) by (nonlinear_arith) requires i == 0;
            }
            assert((r.len() - 1) * step == 0) by (nonlinear_arith) requires r.len() == 1;
        } else {
            let rest = windows_from(chars, start + step, max_chars, step);
            lemma_windows_from(chars, start + step, max_chars, step);
            assert(r == seq![chars.subrange(start as int, end as int)] + rest);
            assert forall|i: int| #![trigger r[i]] 0 <= i < r.len() implies
                is_window(chars, start + i * step, max_chars, r[i]) && 1 <= r[i].len() <= max_chars
            by {
                if i == 0 {
                    assert(i * step == 0) by (nonlinear_arith) requires i == 0;
                } else {
                    assert(r[i] == rest[i - 1]);
                    assert(is_window(chars, (start + step) + (i - 1) * step, max_chars, rest[i - 1]));
                    assert(start + step + (i - 1) * step == start + i * step) by (nonlinear_arith);
                }
            }
            assert(start + step + (rest.len() - 1) * step == start + (r.len() - 1) * step) by (nonlinear_arith)
                requires r.len() == rest.len() + 1;
            assert forall|i: int| 0 <= i < r.len() - 1 implies #[trigger] (start + i * step) + max_chars < chars.len() by {
                if i == 0 {
                    assert(i * step == 0) by (nonlinear_arith) requires i == 0;
                } else {
                    assert(start + step + (i - 1) * step == start + i * step) by (nonlinear_arith);
                    assert((start + step + (i - 1) * step) + max_chars < chars.len());
                }
            }
        }
    }
}

/// What every chunk looks like: chunk `i` is the window of the text that
/// starts at `i * step` and holds at most `max_chars` characters; no chunk
/// is empty; every chunk but the last is a full window; the last one ends
/// where the text ends. Consecutive chunks therefore share
/// `max_chars - step` characters, which is the requested overlap whenever
/// that overlap is below the window.
pub proof fn lemma_chunks_are_windows(text: Seq<char>, max_chars: usize, overlap_chars: usize)
    ensures
        ({
            let r = chunk_text_spec(text, max_chars, overlap_chars);
            let step = chunk_step(max_chars, overlap_chars);
            &&& forall|i: int| 0 <= i < r.len() ==> 1 <= #[trigger] r[i].len() <= max_chars
            &&& (!all_ws(text) && max_chars > 0) ==> r.len() >= 1
            &&& (!all_ws(text) && max_chars > 0 && text.len() > max_chars) ==> {
                &&& forall|i: int| 0 <= i < r.len() ==> #[trigger] r[i] == text.subrange(i * step, window_end(text.len(), (i * step) as nat, max_chars as nat) as int)
                &&& forall|i: int| 0 <= i < r.len() - 1 ==> #[trigger] (i * step) + max_chars < text.len()
                &&& window_end(text.len(), ((r.len() - 1) * step) as nat, max_chars as nat) == text.len()
            }
        }),
{
    let r = chunk_text_spec(text, max_chars, overlap_chars);
    let step = chunk_step(max_chars, overlap_chars);
    if all_ws(text) || max_chars == 0 {
    } else if text.len() <= max_chars {
        assert(text.len() > 0) by {
            if text.len() == 0 {
                assert(all_ws(text));
            }
        }
    } else {
        lemma_windows_from(text, 0, max_chars as nat, step);
        assert forall|i: int| 0 <= i < r.len() implies 1 <= #[trigger] r[i].len() <= max_chars by {
            assert(is_window(text, 0 + i * step, max_chars as nat, r[i]));
        }
        assert forall|i: int| 0 <= i < r.len() implies #[trigger] r[i] == text.subrange(i * step, window_end(text.len(), (i * step) as nat, max_chars as nat) as int) by {
            assert(is_window(text, 0 + i * step, max_chars as nat, r[i]));
            assert(0 + i * step == i * step);
        }
        assert forall|i: int| 0 <= i < r.len() - 1 implies #[trigger] (i * step) + max_chars < text.len() by {
            assert((0 + i * step) + max_chars < text.len());
        }
    }
}

} // verus!
