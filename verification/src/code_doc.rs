//! How generated code is written out: a document is a sequence of chunks
//! (text, a space unless at a line start, indent, dedent), and the
//! formatter renders chunks into text, indenting every non-empty line that
//! it starts.
use vstd::prelude::*;

use crate::text::{
    chars_of, ends_with_newline, first_index_of, lemma_first_index_of, next_newline,
};

verus! {

/// One step of writing generated code.
pub enum Chunk {
    /// Text, written through the indenting writer.
    Text(Seq<char>),
    /// A single space, unless the output is at the start of a line.
    Space,
    /// Increase the indentation by four spaces.
    Indent,
    /// Decrease the indentation by four spaces.
    Dedent,
}

/// The state of a formatter: the text written so far and the current
/// indentation width.
pub struct FmtState {
    pub dst: Seq<char>,
    pub spaces: nat,
}

pub open spec fn at_line_start(dst: Seq<char>) -> bool {
    dst.len() == 0 || dst.last() == '\n'
}

pub open spec fn spaces_seq(n: nat) -> Seq<char> {
    Seq::new(n, |_i: int| ' ')
}

/// Writing `s` line by line: each line gets the current indentation when
/// it starts a line of output and is not empty; a `'\r'` before a line feed
/// is dropped.
pub open spec fn write_text(st: FmtState, s: Seq<char>) -> FmtState
    decreases s.len(),
{
    if s.len() == 0 {
        st
    } else {
        let k = first_index_of(s, '\n') as int;
        let terminated = k < s.len();
        let raw = s.take(k);
        let content = if terminated && raw.len() > 0 && raw.last() == '\r' {
            raw.drop_last()
        } else {
            raw
        };
        let pad = if at_line_start(st.dst) && content.len() > 0 {
            spaces_seq(st.spaces)
        } else {
            Seq::<char>::empty()
        };
        let tail = if terminated {
            seq!['\n']
        } else {
            Seq::<char>::empty()
        };
        let rest = if terminated {
            s.skip(k + 1)
        } else {
            s.skip(k)
        };
        proof {
            lemma_first_index_of(s, '\n');
        }
        write_text(FmtState { dst: st.dst + pad + content + tail, spaces: st.spaces }, rest)
    }
}

pub open spec fn step(st: FmtState, c: Chunk) -> FmtState {
    match c {
        Chunk::Text(s) => write_text(st, s),
        Chunk::Space => if at_line_start(st.dst) {
            st
        } else {
            write_text(st, seq![' '])
        },
        Chunk::Indent => FmtState {
            dst: st.dst,
            spaces: if st.spaces + 4 <= usize::MAX {
                st.spaces + 4
            } else {
                usize::MAX as nat
            },
        },
        Chunk::Dedent => FmtState {
            dst: st.dst,
            spaces: if st.spaces >= 4 {
                (st.spaces - 4) as nat
            } else {
                0
            },
        },
    }
}

/// The state after writing a document.
pub open spec fn render(st: FmtState, doc: Seq<Chunk>) -> FmtState
    decreases doc.len(),
{
    if doc.len() == 0 {
        st
    } else {
        render(step(st, doc[0]), doc.drop_first())
    }
}

/// Writing two documents one after the other is writing their
/// concatenation.
pub proof fn lemma_render_concat(st: FmtState, a: Seq<Chunk>, b: Seq<Chunk>)
    ensures
        render(st, a + b) == render(render(st, a), b),
    decreases a.len(),
{
    if a.len() > 0 {
        assert((a + b).drop_first() =~= a.drop_first() + b);
        assert((a + b)[0] == a[0]);
        lemma_render_concat(step(st, a[0]), a.drop_first(), b);
    } else {
        assert(a + b =~= b);
    }
}

pub proof fn lemma_render_push(st: FmtState, a: Seq<Chunk>, c: Chunk)
    ensures
        render(st, a.push(c)) == step(render(st, a), c),
{
    lemma_render_concat(st, a, seq![c]);
    assert(a.push(c) =~= a + seq![c]);
    assert(seq![c].drop_first() =~= Seq::<Chunk>::empty());
    assert(seq![c][0] == c);
    assert(render(render(st, a), seq![c]) == render(step(render(st, a), c), Seq::<Chunk>::empty()));
}

/// Writing text never changes the indentation.
pub proof fn lemma_write_text_spaces(st: FmtState, s: Seq<char>)
    ensures
        write_text(st, s).spaces == st.spaces,
    decreases s.len(),
{
    if s.len() > 0 {
        lemma_first_index_of(s, '\n');
        let k = first_index_of(s, '\n') as int;
        let terminated = k < s.len();
        let raw = s.take(k);
        let content = if terminated && raw.len() > 0 && raw.last() == '\r' {
            raw.drop_last()
        } else {
            raw
        };
        let pad = if at_line_start(st.dst) && content.len() > 0 {
            spaces_seq(st.spaces)
        } else {
            Seq::<char>::empty()
        };
        let tail = if terminated {
            seq!['\n']
        } else {
            Seq::<char>::empty()
        };
        let rest = if terminated {
            s.skip(k + 1)
        } else {
            s.skip(k)
        };
        lemma_write_text_spaces(FmtState { dst: st.dst + pad + content + tail, spaces: st.spaces }, rest);
    }
}

/// A state with nothing written and no indentation.
pub open spec fn empty_state() -> FmtState {
    FmtState { dst: Seq::empty(), spaces: 0 }
}

/// The text a document renders to from an empty formatter.
pub open spec fn render_text(doc: Seq<Chunk>) -> Seq<char> {
    render(empty_state(), doc).dst
}

/// Writes generated code with indentation.
pub struct Formatter {
    dst: String,
    spaces: usize,
    origin: Ghost<FmtState>,
    log: Ghost<Seq<Chunk>>,
}

impl Formatter {
    #[verifier::type_invariant]
    closed spec fn consistent(self) -> bool {
        render(self.origin@, self.log@) == (FmtState { dst: self.dst@, spaces: self.spaces as nat })
    }

    /// The state this formatter started from.
    pub closed spec fn origin(&self) -> FmtState {
        self.origin@
    }

    /// Everything written to this formatter since it was created.
    pub closed spec fn log(&self) -> Seq<Chunk> {
        self.log@
    }

    /// A formatter with nothing written and no indentation.
    pub fn new() -> (r: Formatter)
        ensures
            r.origin() == empty_state(),
            r.log() == Seq::<Chunk>::empty(),
    {
        Formatter {
            dst: String::new(),
            spaces: 0,
            origin: Ghost(empty_state()),
            log: Ghost(Seq::empty()),
        }
    }

    /// The text written so far.
    pub fn finish(self) -> (r: String)
        ensures
            r@ == render(self.origin(), self.log()).dst,
    {
        proof {
            use_type_invariant(&self);
        }
        self.dst
    }

    /// Whether the output is at the start of a line (empty or ending in a
    /// line feed).
    pub fn is_start_of_line(&self) -> (r: bool)
        ensures
            r == at_line_start(render(self.origin(), self.log()).dst),
    {
        proof {
            use_type_invariant(self);
        }
        self.dst.as_str().is_empty() || ends_with_newline(self.dst.as_str())
    }

    fn write_into(dst: &mut String, spaces: usize, s: &str)
        ensures
            final(dst)@ == write_text(FmtState { dst: old(dst)@, spaces: spaces as nat }, s@).dst,
    {
        let cs = chars_of(s);
        let mut pos: usize = 0;
        let mut at_start = dst.as_str().is_empty() || ends_with_newline(dst.as_str());
        let ghost target = write_text(FmtState { dst: dst@, spaces: spaces as nat }, s@);
        assert(cs@.skip(0) =~= s@);
        while pos < cs.len()
            invariant
                cs@ == s@,
                pos <= cs@.len(),
                at_start == at_line_start(dst@),
                write_text(FmtState { dst: dst@, spaces: spaces as nat }, cs@.skip(pos as int))
                    == target,
            decreases cs@.len() - pos,
        {
            let ghost rest = cs@.skip(pos as int);
            let ghost before = dst@;
            let k = next_newline(&cs, pos);
            let terminated = k < cs.len();
            let end = if terminated && k > pos && cs[k - 1] == '\r' {
                k - 1
            } else {
                k
            };
            if at_start && end > pos {
                let mut n: usize = 0;
                while n < spaces
                    invariant
                        n <= spaces,
                        dst@ == before + spaces_seq(n as nat),
                    decreases spaces - n,
                {
                    dst.push(' ');
                    n += 1;
                    assert(dst@ =~= before + spaces_seq(n as nat));
                }
            }
            let ghost padded = dst@;
            let mut i = pos;
            while i < end
                invariant
                    pos <= i <= end <= cs@.len(),
                    dst@ == padded + cs@.subrange(pos as int, i as int),
                decreases end - i,
            {
                dst.push(cs[i]);
                i += 1;
                assert(dst@ =~= padded + cs@.subrange(pos as int, i as int));
            }
            if terminated {
                dst.push('\n');
            }
            proof {
                let kk = first_index_of(rest, '\n') as int;
                assert(kk == k - pos);
                let raw = rest.take(kk);
                assert(raw =~= cs@.subrange(pos as int, k as int));
                let content = if terminated && raw.len() > 0 && raw.last() == '\r' {
                    raw.drop_last()
                } else {
                    raw
                };
                assert(content =~= cs@.subrange(pos as int, end as int));
                let pad = if at_line_start(before) && content.len() > 0 {
                    spaces_seq(spaces as nat)
                } else {
                    Seq::<char>::empty()
                };
                let tail = if terminated {
                    seq!['\n']
                } else {
                    Seq::<char>::empty()
                };
                assert(dst@ =~= before + pad + content + tail);
                let next: int = if terminated {
                    k + 1
                } else {
                    k as int
                };
                if terminated {
                    assert(rest.skip(kk + 1) =~= cs@.skip(next));
                } else {
                    assert(rest.skip(kk) =~= cs@.skip(next));
                }
            }
            proof {
                if !terminated && end > pos {
                    lemma_first_index_of(rest, '\n');
                    assert(cs@[end - 1] == rest[end - 1 - pos]);
                    assert(dst@.last() == cs@[end - 1]);
                }
            }
            at_start = if terminated {
                true
            } else if end > pos {
                false
            } else {
                at_start
            };
            pos = if terminated {
                k + 1
            } else {
                k
            };
        }
        assert(cs@.skip(pos as int) =~= Seq::<char>::empty());
    }

    /// Writes `s` through the indenting writer.
    pub fn write_str(&mut self, s: &str)
        ensures
            final(self).origin() == old(self).origin(),
            final(self).log() == old(self).log().push(Chunk::Text(s@)),
    {
        let mut tmp = Formatter::new();
        std::mem::swap(&mut tmp, self);
        proof {
            use_type_invariant(&tmp);
        }
        let Formatter { mut dst, spaces, origin, log } = tmp;
        Formatter::write_into(&mut dst, spaces, s);
        proof {
            lemma_write_text_spaces(FmtState { dst: render(origin@, log@).dst, spaces: spaces as nat }, s@);
            lemma_render_push(origin@, log@, Chunk::Text(s@));
        }
        *self = Formatter { dst, spaces, origin, log: Ghost(log@.push(Chunk::Text(s@))) };
    }

    /// Writes a space unless the output is at the start of a line.
    pub fn space(&mut self)
        ensures
            final(self).origin() == old(self).origin(),
            final(self).log() == old(self).log().push(Chunk::Space),
    {
        let mut tmp = Formatter::new();
        std::mem::swap(&mut tmp, self);
        proof {
            use_type_invariant(&tmp);
        }
        let Formatter { mut dst, spaces, origin, log } = tmp;
        let at_start = dst.as_str().is_empty() || ends_with_newline(dst.as_str());
        if !at_start {
            Formatter::write_into(&mut dst, spaces, " ");
        }
        proof {
            reveal_strlit(" ");
            assert(" "@ =~= seq![' ']);
            lemma_write_text_spaces(FmtState { dst: render(origin@, log@).dst, spaces: spaces as nat }, " "@);
            lemma_render_push(origin@, log@, Chunk::Space);
        }
        *self = Formatter { dst, spaces, origin, log: Ghost(log@.push(Chunk::Space)) };
    }

    /// Increases the indentation by four spaces.
    pub fn indent(&mut self)
        ensures
            final(self).origin() == old(self).origin(),
            final(self).log() == old(self).log().push(Chunk::Indent),
    {
        let mut tmp = Formatter::new();
        std::mem::swap(&mut tmp, self);
        proof {
            use_type_invariant(&tmp);
        }
        let Formatter { dst, spaces, origin, log } = tmp;
        let spaces = spaces.saturating_add(4);
        proof {
            lemma_render_push(origin@, log@, Chunk::Indent);
        }
        *self = Formatter { dst, spaces, origin, log: Ghost(log@.push(Chunk::Indent)) };
    }

    /// Decreases the indentation by four spaces.
    pub fn dedent(&mut self)
        ensures
            final(self).origin() == old(self).origin(),
            final(self).log() == old(self).log().push(Chunk::Dedent),
    {
        let mut tmp = Formatter::new();
        std::mem::swap(&mut tmp, self);
        proof {
            use_type_invariant(&tmp);
        }
        let Formatter { dst, spaces, origin, log } = tmp;
        let spaces = spaces.saturating_sub(4);
        proof {
            lemma_render_push(origin@, log@, Chunk::Dedent);
        }
        *self = Formatter { dst, spaces, origin, log: Ghost(log@.push(Chunk::Dedent)) };
    }
}

} // verus!
