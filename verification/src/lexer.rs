//! The lookahead engine: a buffering layer over the token classifier that
//! exposes single-token lookahead (`peek` / `peek_text` / `peek_char`),
//! partial consumption (`consume_word`) and consumption (`eat`), while
//! amortizing scanning cost by prefetching a bounded batch of tokens, and
//! reclassifying every generic command token by its name as it is pulled.

use vstd::prelude::*;

use crate::model::concat_texts;
use crate::model::lemma_token_seq_lossless;
use crate::model::token_at;
use crate::model::token_end_at;
use crate::model::token_seq;
use crate::scan::scan_token;
use crate::token::CommandName;
use crate::token::CommandSpec;
use crate::token::SyntaxKind;
use crate::token::Token;
use crate::token::classify;
use crate::token::syntax_of;

verus! {

/// How many tokens one refill prefetches: sized so the batch of peeked-token
/// records fits roughly one memory page. Purely a locality device; no
/// correctness property depends on this bound.
const PEEK_CACHE_SIZE: usize = 170;

/// One peeked token: its kind and the character range of its text within the
/// input.
#[derive(Debug, Clone, Copy)]
struct PeekEntry {
    /// The (already reclassified) kind of the token.
    kind: Token,
    /// Where the token's text starts, as a character index.
    lo: usize,
    /// Where the token's text ends, as a character index.
    hi: usize,
}

/// The entry is exactly the model token that starts at its `lo`.
spec fn entry_ok(s: Seq<char>, e: PeekEntry) -> bool {
    &&& e.kind == token_at(s, e.lo as int)
    &&& e.hi as int == token_end_at(s, e.lo as int)
    &&& e.lo < e.hi <= s.len()
}

/// Entries in stack order (the next token to pop is last) tile `[lo, hi)`
/// with consecutive model tokens.
spec fn stack_tiles(s: Seq<char>, es: Seq<PeekEntry>, lo: int, hi: int) -> bool
    decreases es.len(),
{
    if es.len() == 0 {
        lo == hi
    } else {
        let e = es.last();
        &&& entry_ok(s, e)
        &&& e.lo as int == lo
        &&& stack_tiles(s, es.drop_last(), e.hi as int, hi)
    }
}

/// Entries in scan order (first-scanned first) tile `[lo, hi)` with
/// consecutive model tokens.
spec fn batch_tiles(s: Seq<char>, es: Seq<PeekEntry>, lo: int, hi: int) -> bool
    decreases es.len(),
{
    if es.len() == 0 {
        lo == hi
    } else {
        let e = es.last();
        &&& entry_ok(s, e)
        &&& e.hi as int == hi
        &&& batch_tiles(s, es.drop_last(), lo, e.lo as int)
    }
}

/// The (kind, text) pairs of stacked entries, listed in text order.
spec fn stack_view(s: Seq<char>, es: Seq<PeekEntry>) -> Seq<(Token, Seq<char>)>
    decreases es.len(),
{
    if es.len() == 0 {
        seq![]
    } else {
        let e = es.last();
        seq![(e.kind, s.subrange(e.lo as int, e.hi as int))] + stack_view(s, es.drop_last())
    }
}

/// Stacked entries that tile `[lo, hi)` show, together with the stream from
/// `hi` on, exactly the token stream from `lo` on.
proof fn lemma_stack_view_tokens(s: Seq<char>, es: Seq<PeekEntry>, lo: int, hi: int)
    requires
        stack_tiles(s, es, lo, hi),
        0 <= lo,
        hi <= s.len(),
    ensures
        lo <= hi,
        stack_view(s, es) + token_seq(s, hi) == token_seq(s, lo),
    decreases es.len(),
{
    if es.len() == 0 {
        assert(stack_view(s, es) + token_seq(s, hi) =~= token_seq(s, lo));
    } else {
        let e = es.last();
        lemma_stack_view_tokens(s, es.drop_last(), e.hi as int, hi);
        assert(stack_view(s, es) + token_seq(s, hi) =~= token_seq(s, lo));
    }
}

/// A small memory-efficient lexer for TeX-like markup. It borrows its input
/// and an opaque command specification for its whole lifetime; every token
/// text it hands out is a view into that same input, never a copy.
#[derive(Debug, Clone)]
pub struct Lexer<'a> {
    /// The borrowed input.
    input: &'a str,
    /// The input's length in characters.
    length: usize,
    /// The externally owned command specification, held but not consulted.
    commands: CommandSpec,
    /// The scan position: everything before it has been turned into tokens.
    cursor: usize,
    /// The current token, if any.
    peeked: Option<PeekEntry>,
    /// Tokens prefetched ahead of the current one, last-scanned on top, so
    /// that popping yields tokens in original forward order.
    peek_cache: Vec<PeekEntry>,
}

impl<'a> Lexer<'a> {
    /// The input as a sequence of characters.
    pub closed spec fn text(&self) -> Seq<char> {
        self.input@
    }

    /// Where the first token not yet buffered begins.
    spec fn buffer_start(&self) -> int {
        if self.peek_cache@.len() == 0 {
            self.cursor as int
        } else {
            self.peek_cache@.last().lo as int
        }
    }

    /// The prefetch buffer holds consecutive model tokens up to the cursor.
    spec fn buffer_wf(&self) -> bool {
        &&& self.length == self.text().len()
        &&& self.cursor <= self.length
        &&& stack_tiles(self.text(), self.peek_cache@, self.buffer_start(), self.cursor as int)
    }

    /// Well-formedness: the buffer tiles the scanned region, the current
    /// token (possibly trimmed by `consume_word`) ends exactly where the
    /// buffered region begins, and the current slot is empty only once the
    /// whole input is consumed.
    pub closed spec fn wf(&self) -> bool {
        &&& self.buffer_wf()
        &&& match self.peeked {
            None => self.peek_cache@.len() == 0 && self.cursor == self.length,
            Some(p) => p.lo < p.hi <= self.length && p.hi as int == self.buffer_start(),
        }
    }

    /// The tokens this lexer has yet to hand out: the current token first,
    /// then the buffered ones, then the not-yet-scanned rest of the input.
    pub closed spec fn remaining(&self) -> Seq<(Token, Seq<char>)> {
        match self.peeked {
            None => seq![],
            Some(p) => seq![(p.kind, self.text().subrange(p.lo as int, p.hi as int))]
                + stack_view(self.text(), self.peek_cache@) + token_seq(
                self.text(),
                self.cursor as int,
            ),
        }
    }

    /// Create a new lexer over the borrowed input and opaque command
    /// specification, priming the current-token slot with the input's first
    /// token.
    pub fn new(input: &'a str, commands: CommandSpec) -> (l: Lexer<'a>)
        ensures
            l.wf(),
            l.text() == input@,
            l.remaining() == token_seq(input@, 0),
    {
        let length = input.unicode_len();
        let mut l = Lexer {
            input,
            length,
            commands,
            cursor: 0,
            peeked: None,
            peek_cache: Vec::new(),
        };
        l.next();
        l
    }

    /// Refill the empty prefetch buffer with up to a page of tokens, scanned
    /// in order and then stored as a stack, reclassifying each generic
    /// command token by its name as it is pulled.
    fn bump_batched(&mut self)
        requires
            old(self).buffer_wf(),
            old(self).peek_cache@.len() == 0,
        ensures
            final(self).buffer_wf(),
            final(self).input == old(self).input,
            final(self).length == old(self).length,
            final(self).commands == old(self).commands,
            final(self).peeked == old(self).peeked,
            final(self).buffer_start() == old(self).cursor as int,
            old(self).cursor < old(self).length ==> final(self).peek_cache@.len() > 0,
    {
        let ghost s = self.text();
        let mut batch: Vec<PeekEntry> = Vec::new();
        let mut k: usize = 0;
        while k < PEEK_CACHE_SIZE && self.cursor < self.length
            invariant
                self.input == old(self).input,
                self.length == old(self).length,
                self.commands == old(self).commands,
                self.peeked == old(self).peeked,
                self.peek_cache == old(self).peek_cache,
                self.length == s.len(),
                s == self.text(),
                self.cursor <= self.length,
                batch@.len() == k,
                batch_tiles(s, batch@, old(self).cursor as int, self.cursor as int),
            decreases PEEK_CACHE_SIZE - k,
        {
            let lo = self.cursor;
            let (raw, hi) = scan_token(self.input, self.length, lo);
            let kind = match raw {
                Token::CommandName(CommandName::Generic) => {
                    let name = self.input.substring_char(lo + 1, hi);
                    Token::CommandName(classify(name))
                },
                other => other,
            };
            proof {
                assert(s.subrange(lo as int + 1, hi as int) == s.subrange(
                    lo as int + 1,
                    token_end_at(s, lo as int),
                ));
                assert(kind == token_at(s, lo as int));
            }
            let entry = PeekEntry { kind, lo, hi };
            let ghost batch0 = batch@;
            batch.push(entry);
            self.cursor = hi;
            k += 1;
            proof {
                assert(entry_ok(s, entry));
                assert(batch@.last() == entry);
                assert(batch@.drop_last() =~= batch0);
                assert(batch_tiles(s, batch@, old(self).cursor as int, self.cursor as int));
            }
        }
        proof {
            // An empty batch means no token was scanned, which the loop's
            // exit condition allows only at the end of the input.
            if batch@.len() == 0 {
                assert(self.cursor == old(self).cursor);
            }
        }
        let ghost cur = self.cursor;
        let ghost scanned = batch@.len();
        loop
            invariant_except_break
                self.input == old(self).input,
                self.length == old(self).length,
                self.commands == old(self).commands,
                self.peeked == old(self).peeked,
                self.cursor == cur,
                self.length == s.len(),
                s == self.text(),
                self.cursor <= self.length,
                batch_tiles(s, batch@, old(self).cursor as int, self.buffer_start()),
                stack_tiles(s, self.peek_cache@, self.buffer_start(), self.cursor as int),
                batch@.len() + self.peek_cache@.len() == scanned,
            ensures
                self.input == old(self).input,
                self.length == old(self).length,
                self.commands == old(self).commands,
                self.peeked == old(self).peeked,
                self.cursor == cur,
                s == self.text(),
                self.cursor <= self.length,
                self.buffer_start() == old(self).cursor as int,
                stack_tiles(s, self.peek_cache@, self.buffer_start(), self.cursor as int),
                self.peek_cache@.len() == scanned,
            decreases batch@.len(),
        {
            let ghost batch0 = batch@;
            let ghost cache0 = self.peek_cache@;
            match batch.pop() {
                Some(e) => {
                    self.peek_cache.push(e);
                    proof {
                        assert(batch@ =~= batch0.drop_last());
                        assert(batch0.last() == e);
                        assert(entry_ok(s, e));
                        assert(self.peek_cache@.last() == e);
                        assert(self.peek_cache@.drop_last() =~= cache0);
                        assert(stack_tiles(s, cache0, e.hi as int, self.cursor as int));
                        assert(stack_tiles(
                            s,
                            self.peek_cache@,
                            self.buffer_start(),
                            self.cursor as int,
                        ));
                    }
                },
                None => {
                    break ;
                },
            }
        }
    }

    /// Advance to the next token: pop it off the prefetch buffer, refilling
    /// the buffer from the classifier first when it has run empty.
    fn next(&mut self)
        requires
            old(self).buffer_wf(),
        ensures
            final(self).wf(),
            final(self).input == old(self).input,
            final(self).length == old(self).length,
            final(self).commands == old(self).commands,
            final(self).remaining() == token_seq(old(self).text(), old(self).buffer_start()),
    {
        let ghost s = self.text();
        let ghost start = self.buffer_start();
        let ghost cache0 = self.peek_cache@;
        let popped = self.peek_cache.pop();
        match popped {
            Some(e) => {
                self.peeked = Some(e);
                proof {
                    assert(cache0.last() == e);
                    assert(self.peek_cache@ =~= cache0.drop_last());
                    assert(stack_tiles(s, self.peek_cache@, e.hi as int, self.cursor as int));
                    lemma_stack_view_tokens(s, self.peek_cache@, e.hi as int, self.cursor as int);
                    if self.peek_cache@.len() > 0 {
                        assert(self.peek_cache@.last().lo as int == e.hi as int);
                    }
                    assert(self.remaining() =~= token_seq(s, start));
                }
            },
            None => {
                proof {
                    assert(start == self.cursor as int);
                }
                self.bump_batched();
                let ghost cache1 = self.peek_cache@;
                let popped2 = self.peek_cache.pop();
                self.peeked = popped2;
                match popped2 {
                    Some(e) => {
                        proof {
                            assert(cache1.last() == e);
                            assert(self.peek_cache@ =~= cache1.drop_last());
                            assert(stack_tiles(
                                s,
                                self.peek_cache@,
                                e.hi as int,
                                self.cursor as int,
                            ));
                            lemma_stack_view_tokens(
                                s,
                                self.peek_cache@,
                                e.hi as int,
                                self.cursor as int,
                            );
                            if self.peek_cache@.len() > 0 {
                                assert(self.peek_cache@.last().lo as int == e.hi as int);
                            }
                            assert(self.remaining() =~= token_seq(s, start));
                        }
                    },
                    None => {
                        proof {
                            assert(self.remaining() =~= token_seq(s, start));
                        }
                    },
                }
            },
        }
    }

    /// The kind of the current token, without consuming it; `None` at the end
    /// of input. Repeatable; no side effects.
    pub fn peek(&self) -> (r: Option<Token>)
        ensures
            self.remaining().len() == 0 ==> r is None,
            self.remaining().len() > 0 ==> r == Some(self.remaining()[0].0),
    {
        match self.peeked {
            Some(p) => Some(p.kind),
            None => None,
        }
    }

    /// The text of the current token, or `None` at the end of input. The
    /// slice is a view into the original input.
    pub fn peek_text(&self) -> (r: Option<&'a str>)
        requires
            self.wf(),
        ensures
            self.remaining().len() == 0 ==> r is None,
            self.remaining().len() > 0 ==> (r matches Some(t) && t@ == self.remaining()[0].1),
    {
        let inp: &'a str = self.input;
        match self.peeked {
            Some(p) => Some(inp.substring_char(p.lo, p.hi)),
            None => None,
        }
    }

    /// The first character of the current token's text, or `None` at the end
    /// of input.
    pub fn peek_char(&self) -> (r: Option<char>)
        requires
            self.wf(),
        ensures
            self.remaining().len() == 0 ==> r is None,
            self.remaining().len() > 0 ==> r == Some(self.remaining()[0].1[0]),
    {
        match self.peeked {
            Some(p) => Some(self.input.get_char(p.lo)),
            None => None,
        }
    }

    /// Trim `cnt` characters off the front of the current token's text,
    /// keeping its kind; when at most `cnt` characters remain, advance past
    /// the token entirely instead. No effect at the end of input.
    pub fn consume_word(&mut self, cnt: usize)
        requires
            old(self).wf(),
        ensures
            final(self).wf(),
            final(self).text() == old(self).text(),
            old(self).remaining().len() == 0 ==> final(self).remaining() == old(self).remaining(),
            old(self).remaining().len() > 0 ==> {
                let kind = old(self).remaining()[0].0;
                let text = old(self).remaining()[0].1;
                if text.len() <= cnt {
                    final(self).remaining() == old(self).remaining().drop_first()
                } else {
                    final(self).remaining() == old(self).remaining().update(
                        0,
                        (kind, text.skip(cnt as int)),
                    )
                }
            },
    {
        let ghost s = self.text();
        let p = match self.peeked {
            Some(p) => p,
            None => {
                return ;
            },
        };
        if p.hi - p.lo <= cnt {
            self.next();
            proof {
                lemma_stack_view_tokens(s, old(self).peek_cache@, p.hi as int, old(self).cursor as int);
                assert(old(self).remaining().drop_first() =~= stack_view(s, old(self).peek_cache@)
                    + token_seq(s, old(self).cursor as int));
            }
        } else {
            self.peeked = Some(PeekEntry { kind: p.kind, lo: p.lo + cnt, hi: p.hi });
            proof {
                assert(s.subrange(p.lo as int, p.hi as int).skip(cnt as int) =~= s.subrange(
                    p.lo as int + cnt,
                    p.hi as int,
                ));
                assert(final(self).remaining() =~= old(self).remaining().update(
                    0,
                    (p.kind, s.subrange(p.lo as int, p.hi as int).skip(cnt as int)),
                ));
            }
        }
    }

    /// Hand out the current token as a parser-facing (kind, text) pair and
    /// advance to the next token; `None` at the end of input. Repeatedly
    /// eating always terminates: each successful call shrinks the remaining
    /// token stream by exactly one, and `None` comes exactly when it is
    /// empty.
    pub fn eat(&mut self) -> (r: Option<(SyntaxKind, &'a str)>)
        requires
            old(self).wf(),
        ensures
            final(self).wf(),
            final(self).text() == old(self).text(),
            old(self).remaining().len() == 0 ==> r is None && final(self).remaining() == old(
                self,
            ).remaining(),
            old(self).remaining().len() > 0 ==> {
                &&& r matches Some(pair) && pair.0 == syntax_of(old(self).remaining()[0].0)
                    && pair.1@ == old(self).remaining()[0].1
                &&& final(self).remaining() == old(self).remaining().drop_first()
            },
    {
        let ghost s = self.text();
        let inp: &'a str = self.input;
        let p = match self.peeked {
            Some(p) => p,
            None => {
                return None;
            },
        };
        self.peeked = None;
        let text = inp.substring_char(p.lo, p.hi);
        self.next();
        proof {
            lemma_stack_view_tokens(s, old(self).peek_cache@, p.hi as int, old(self).cursor as int);
            assert(old(self).remaining().drop_first() =~= stack_view(s, old(self).peek_cache@)
                + token_seq(s, old(self).cursor as int));
        }
        Some((p.kind.syntax_kind(), text))
    }
}

/// Losslessness of the lexer: a freshly built lexer's remaining tokens — the
/// very tokens draining via `eat` hands out, one per call, in order —
/// concatenate to the whole input exactly.
pub proof fn lemma_lexer_lossless(l: Lexer)
    requires
        l.remaining() == token_seq(l.text(), 0),
    ensures
        concat_texts(l.remaining()) == l.text(),
{
    lemma_token_seq_lossless(l.text());
}

} // verus!
