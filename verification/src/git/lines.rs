//! Counting the lines of a new file the way `git diff --numstat` does, piece by piece.
use vstd::prelude::*;

verus! {

/// git treats a file as binary when its first 8000 bytes contain a NUL byte.
pub const BINARY_SNIFF_LEN: usize = 8000;

/// The bytes of `content` that decide whether it is binary.
pub open spec fn sniffed(content: Seq<u8>) -> Seq<u8> {
    if content.len() <= BINARY_SNIFF_LEN {
        content
    } else {
        content.take(BINARY_SNIFF_LEN as int)
    }
}

/// `content` is binary.
pub open spec fn is_binary(content: Seq<u8>) -> bool {
    sniffed(content).contains(0u8)
}

/// How many line feeds `content` holds.
pub open spec fn line_feeds(content: Seq<u8>) -> nat
    decreases content.len(),
{
    if content.len() == 0 {
        0
    } else {
        line_feeds(content.drop_last()) + if content.last() == 10u8 {
            1nat
        } else {
            0nat
        }
    }
}

/// The number of lines of text `content`, a last line without a line feed included; `None` when
/// it is binary.
pub open spec fn text_lines(content: Seq<u8>) -> Option<nat> {
    if is_binary(content) {
        None
    } else if content.len() > 0 && content.last() != 10u8 {
        Some(line_feeds(content) + 1)
    } else {
        Some(line_feeds(content))
    }
}

proof fn lemma_line_feeds(content: Seq<u8>)
    ensures
        line_feeds(content) <= content.len(),
    decreases content.len(),
{
    if content.len() > 0 {
        lemma_line_feeds(content.drop_last());
    }
}

/// Once the beginning of a file shows that it is binary, the rest cannot change that.
pub proof fn binary_beginning_decides(beginning: Seq<u8>, rest: Seq<u8>)
    requires
        is_binary(beginning),
    ensures
        is_binary(beginning + rest),
{
    let at = choose|at: int|
        0 <= at < sniffed(beginning).len() && sniffed(beginning)[at] == 0u8;
    assert(sniffed(beginning)[at] == 0u8);
    assert(sniffed(beginning + rest)[at] == 0u8);
}

/// Counts the lines of a file that arrives in pieces.
pub struct LineCounter {
    lines: u64,
    sniffed: usize,
    last: Option<u8>,
    binary: bool,
    seen: Ghost<Seq<u8>>,
}

impl LineCounter {
    /// Everything that has been fed so far.
    pub closed spec fn seen(&self) -> Seq<u8> {
        self.seen@
    }

    pub closed spec fn wf(&self) -> bool {
        let seen = self.seen@;
        &&& seen.len() <= u64::MAX
        &&& self.binary == is_binary(seen)
        &&& !self.binary ==> {
            &&& self.sniffed == sniffed(seen).len()
            &&& self.lines == line_feeds(seen)
            &&& self.last == if seen.len() == 0 {
                None
            } else {
                Some(seen.last())
            }
        }
    }

    /// A counter for an empty file.
    pub fn new() -> (counter: Self)
        ensures
            counter.wf(),
            counter.seen() == Seq::<u8>::empty(),
    {
        LineCounter {
            lines: 0,
            sniffed: 0,
            last: None,
            binary: false,
            seen: Ghost(Seq::empty()),
        }
    }

    /// Counts one more piece. The answer is `false` once the file is known to be binary; what
    /// follows need not be read then.
    pub fn feed(&mut self, piece: &[u8]) -> (go_on: bool)
        requires
            old(self).wf(),
            old(self).seen().len() + piece@.len() <= u64::MAX,
        ensures
            final(self).wf(),
            final(self).seen() == old(self).seen() + piece@,
            go_on == !is_binary(final(self).seen()),
    {
        let ghost before = self.seen@;
        let len = piece.len();
        self.seen = Ghost(before + piece@);
        if self.binary {
            proof {
                binary_beginning_decides(before, piece@);
            }
            return false;
        }
        let mut i: usize = 0;
        proof {
            assert(before + piece@.take(0) =~= before);
        }
        while i < len
            invariant
                i <= len,
                len == piece@.len(),
                before.len() + piece@.len() <= u64::MAX,
                before == old(self).seen@,
                self.seen@ == before + piece@,
                !is_binary(before + piece@.take(i as int)),
                !self.binary,
                self.sniffed == sniffed(before + piece@.take(i as int)).len(),
                self.lines == line_feeds(before + piece@.take(i as int)),
                self.last == if before.len() + i == 0 {
                    None
                } else {
                    Some((before + piece@.take(i as int)).last())
                },
            decreases len - i,
        {
            let byte = piece[i];
            let ghost had = before + piece@.take(i as int);
            let ghost has = before + piece@.take(i + 1);
            proof {
                assert(has =~= had.push(byte));
                assert(has.drop_last() =~= had);
                lemma_line_feeds(had);
            }
            if self.sniffed < BINARY_SNIFF_LEN {
                if byte == 0 {
                    self.binary = true;
                    proof {
                        assert(sniffed(has) =~= has);
                        assert(has[has.len() - 1] == 0u8);
                        binary_beginning_decides(has, piece@.skip(i + 1));
                        assert(has + piece@.skip(i + 1) =~= before + piece@);
                    }
                    return false;
                }
                self.sniffed = self.sniffed + 1;
                proof {
                    assert(sniffed(had) =~= had);
                    assert(sniffed(has) =~= sniffed(had).push(byte));
                }
            } else {
                proof {
                    assert(sniffed(has) =~= sniffed(had));
                }
            }
            if byte == 10 {
                self.lines = self.lines + 1;
            }
            self.last = Some(byte);
            i = i + 1;
        }
        proof {
            assert(piece@.take(len as int) =~= piece@);
        }
        true
    }

    /// The number of lines of what has been fed; `None` when it is binary.
    pub fn finish(&self) -> (lines: Option<u64>)
        requires
            self.wf(),
        ensures
            match lines {
                Some(n) => text_lines(self.seen()) == Some(n as nat),
                None => text_lines(self.seen()) is None,
            },
    {
        if self.binary {
            return None;
        }
        match self.last {
            Some(byte) => {
                if byte != 10 {
                    proof {
                        lemma_line_feeds(self.seen@.drop_last());
                    }
                    Some(self.lines + 1)
                } else {
                    Some(self.lines)
                }
            },
            None => Some(self.lines),
        }
    }
}

/// The file whose pieces are given, put together.
pub open spec fn joined_pieces(pieces: Seq<Seq<u8>>) -> Seq<u8>
    decreases pieces.len(),
{
    if pieces.len() == 0 {
        Seq::empty()
    } else {
        joined_pieces(pieces.drop_last()) + pieces.last()
    }
}

/// Counts lines the way `git diff --numstat` does for a new file (a final line without a
/// trailing newline still counts). Returns `None` for binary content. However the content is cut
/// into pieces, the count is that of the whole.
pub fn count_text_lines(pieces: &Vec<Vec<u8>>) -> (lines: Option<u64>)
    requires
        joined_pieces(pieces.deep_view()).len() <= u64::MAX,
    ensures
        match lines {
            Some(n) => text_lines(joined_pieces(pieces.deep_view())) == Some(n as nat),
            None => text_lines(joined_pieces(pieces.deep_view())) is None,
        },
{
    let mut counter = LineCounter::new();
    let mut i: usize = 0;
    let ghost all = pieces.deep_view();
    while i < pieces.len()
        invariant
            i <= pieces@.len(),
            all == pieces.deep_view(),
            counter.wf(),
            counter.seen() == joined_pieces(all.take(i as int)),
            joined_pieces(all).len() <= u64::MAX,
        decreases pieces@.len() - i,
    {
        proof {
            assert(all.take(i + 1).drop_last() =~= all.take(i as int));
            assert(all.take(i + 1).last() =~= pieces@[i as int]@);
            lemma_joined_grows(all, i + 1);
        }
        let go_on = counter.feed(pieces[i].as_slice());
        if !go_on {
            proof {
                lemma_joined_grows(all, i + 1);
                let seen = joined_pieces(all.take(i + 1));
                let rest = joined_pieces(all).skip(seen.len() as int);
                binary_beginning_decides(seen, rest);
                assert(seen + rest =~= joined_pieces(all));
            }
            return None;
        }
        i = i + 1;
    }
    proof {
        assert(all.take(i as int) =~= all);
    }
    counter.finish()
}

proof fn lemma_joined_grows(pieces: Seq<Seq<u8>>, n: int)
    requires
        0 <= n <= pieces.len(),
    ensures
        joined_pieces(pieces.take(n)).is_prefix_of(joined_pieces(pieces)),
    decreases pieces.len(),
{
    if n == pieces.len() {
        assert(pieces.take(n) =~= pieces);
    } else {
        lemma_joined_grows(pieces.drop_last(), n);
        assert(pieces.drop_last().take(n) =~= pieces.take(n));
    }
}

/// A file is binary exactly when one of its first 8000 bytes is a NUL byte; otherwise every line feed
/// ends a line, and what stands behind the last one is a line too.
pub proof fn lines_end_at_line_feeds(content: Seq<u8>, byte: u8)
    ensures
        text_lines(content) is None <==> exists|i: int|
            0 <= i < content.len() && i < 8000 && #[trigger] content[i] == 0u8,
        text_lines(Seq::empty()) == Some(0nat),
        text_lines(content.push(byte)) matches Some(n) ==> ({
            let open = content.len() > 0 && content.last() != 10u8;
            &&& text_lines(content) is Some
            &&& n == text_lines(content)->Some_0 + if open {
                0nat
            } else {
                1nat
            }
        }),
{
    lemma_sniffed(content);
    lemma_sniffed(Seq::empty());
    let more = content.push(byte);
    lemma_sniffed(more);
    assert(more.drop_last() =~= content);
    if text_lines(more) is Some && is_binary(content) {
        let i = choose|i: int|
            0 <= i < content.len() && i < 8000 && #[trigger] content[i] == 0u8;
        assert(more[i] == 0u8);
    }
}

proof fn lemma_sniffed(content: Seq<u8>)
    ensures
        is_binary(content) <==> exists|i: int|
            0 <= i < content.len() && i < 8000 && #[trigger] content[i] == 0u8,
{
    let s = sniffed(content);
    if is_binary(content) {
        let i = choose|i: int| 0 <= i < s.len() && s[i] == 0u8;
        assert(content[i] == 0u8);
    }
    if exists|i: int| 0 <= i < content.len() && i < 8000 && #[trigger] content[i] == 0u8 {
        let i = choose|i: int|
            0 <= i < content.len() && i < 8000 && #[trigger] content[i] == 0u8;
        assert(s[i] == 0u8);
    }
}

} // verus!
