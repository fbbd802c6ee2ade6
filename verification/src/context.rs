//! The resolution-time symbol table: an append-only registry of symbols
//! with dense ids, plus a stack of lexical frames mapping names to them.

use vstd::prelude::*;

use crate::symbol::{SymV, Symbol, SymbolName, SymbolRef};
use crate::utils::{ErrKindV, ErrorKind};

verus! {

/// One lexical scope's bindings, active only during resolution.
pub struct Frame {
    pub entries: Vec<SymbolRef>,
}

/// Mathematical model of a `Context`.
pub struct CtxV {
    pub symbols: Seq<SymV>,
    pub frames: Seq<Seq<SymV>>,
}

/// The symbol table: every symbol ever declared (index = id), and the
/// stack of currently active frames, outermost first.
pub struct Context {
    pub symbols: Vec<SymbolRef>,
    pub frames: Vec<Frame>,
}

impl View for Frame {
    type V = Seq<SymV>;

    open spec fn view(&self) -> Seq<SymV> {
        self.entries@.map_values(|s: SymbolRef| s@)
    }
}

impl View for Context {
    type V = CtxV;

    open spec fn view(&self) -> CtxV {
        CtxV {
            symbols: self.symbols@.map_values(|s: SymbolRef| s@),
            frames: self.frames@.map_values(|f: Frame| f@),
        }
    }
}

/// Whether `name` is bound by some entry of frame `f`.
pub open spec fn frame_has(f: Seq<SymV>, name: Seq<char>) -> bool {
    exists|j: int| 0 <= j < f.len() && f[j].name == name
}

/// Whether `name` is visible in any active frame.
pub open spec fn visible(c: CtxV, name: Seq<char>) -> bool {
    exists|i: int| 0 <= i < c.frames.len() && frame_has(#[trigger] c.frames[i], name)
}

/// First entry of `f` whose name is `name`, scanning left to right.
pub open spec fn frame_lookup(f: Seq<SymV>, name: Seq<char>) -> Option<SymV>
    decreases f.len(),
{
    if f.len() == 0 {
        None
    } else if f[0].name == name {
        Some(f[0])
    } else {
        frame_lookup(f.drop_first(), name)
    }
}

/// Searches the frames innermost (last) to outermost (first).
pub open spec fn frames_lookup(frames: Seq<Seq<SymV>>, name: Seq<char>) -> Option<SymV>
    decreases frames.len(),
{
    if frames.len() == 0 {
        None
    } else {
        match frame_lookup(frames.last(), name) {
            Some(s) => Some(s),
            None => frames_lookup(frames.drop_last(), name),
        }
    }
}

/// What `Context::by_name` returns.
pub open spec fn lookup_spec(c: CtxV, name: Seq<char>) -> Result<SymV, ErrKindV> {
    match frames_lookup(c.frames, name) {
        Some(s) => Ok(s),
        None => Err(ErrKindV::NotDeclared(name)),
    }
}

/// What `Context::decl` returns and how it changes the table: a name
/// visible in any active frame is refused; otherwise the new symbol gets
/// the next dense id and is appended to the innermost frame.
pub open spec fn decl_spec(c: CtxV, name: Seq<char>) -> (Result<SymV, ErrKindV>, CtxV) {
    if visible(c, name) {
        (Err(ErrKindV::AlreadyDeclared(name)), c)
    } else {
        let sym = SymV { name, id: c.symbols.len() as nat };
        (
            Ok(sym),
            CtxV {
                symbols: c.symbols.push(sym),
                frames: c.frames.update(c.frames.len() - 1, c.frames.last().push(sym)),
            },
        )
    }
}

/// Well-formedness of the table: ids are dense (index = id), every frame
/// entry is a registered symbol, and no name is visible twice.
pub open spec fn ctx_wf(c: CtxV) -> bool {
    &&& (forall|i: int| 0 <= i < c.symbols.len() ==> #[trigger] c.symbols[i].id == i)
    &&& (forall|i: int, j: int|
        0 <= i < c.frames.len() && 0 <= j < c.frames[i].len() ==> (#[trigger] c.frames[i][j]).id
            < c.symbols.len() && c.symbols[c.frames[i][j].id as int] == c.frames[i][j])
    &&& (forall|i1: int, j1: int, i2: int, j2: int|
        0 <= i1 < c.frames.len() && 0 <= j1 < c.frames[i1].len() && 0 <= i2 < c.frames.len() && 0
            <= j2 < c.frames[i2].len() && (#[trigger] c.frames[i1][j1]).name
            == (#[trigger] c.frames[i2][j2]).name ==> i1 == i2 && j1 == j2)
}

/// A name found by the innermost-first search is visible, and conversely.
pub proof fn lemma_lookup_visible(frames: Seq<Seq<SymV>>, name: Seq<char>)
    ensures
        frames_lookup(frames, name) is Some <==> exists|i: int|
            0 <= i < frames.len() && frame_has(#[trigger] frames[i], name),
    decreases frames.len(),
{
    if frames.len() > 0 {
        lemma_frame_lookup_has(frames.last(), name);
        lemma_lookup_visible(frames.drop_last(), name);
        if frames_lookup(frames, name) is Some {
            if frame_lookup(frames.last(), name) is Some {
                assert(frame_has(frames[frames.len() - 1], name));
            } else {
                let i = choose|i: int|
                    0 <= i < frames.drop_last().len() && frame_has(
                        #[trigger] frames.drop_last()[i],
                        name,
                    );
                assert(frames[i] == frames.drop_last()[i]);
            }
        }
        if exists|i: int| 0 <= i < frames.len() && frame_has(#[trigger] frames[i], name) {
            let i = choose|i: int| 0 <= i < frames.len() && frame_has(#[trigger] frames[i], name);
            if i < frames.len() - 1 {
                assert(frames.drop_last()[i] == frames[i]);
            }
        }
    }
}

/// A frame's scan finds an entry exactly when one carries the name.
pub proof fn lemma_frame_lookup_has(f: Seq<SymV>, name: Seq<char>)
    ensures
        frame_lookup(f, name) is Some <==> frame_has(f, name),
        frame_has(f, name) ==> (frame_lookup(f, name) matches Some(s) && exists|j: int|
            0 <= j < f.len() && f[j] == s && f[j].name == name),
    decreases f.len(),
{
    if f.len() > 0 {
        lemma_frame_lookup_has(f.drop_first(), name);
        if f[0].name == name {
            assert(frame_has(f, name));
        } else {
            if frame_has(f.drop_first(), name) {
                let j = choose|j: int|
                    0 <= j < f.drop_first().len() && f.drop_first()[j].name == name;
                assert(f[j + 1] == f.drop_first()[j]);
                assert(frame_has(f, name));
                let s = frame_lookup(f.drop_first(), name)->Some_0;
                let j2 = choose|j2: int|
                    0 <= j2 < f.drop_first().len() && f.drop_first()[j2] == s
                        && f.drop_first()[j2].name == name;
                assert(f[j2 + 1] == s);
            }
            if frame_has(f, name) {
                let j = choose|j: int| 0 <= j < f.len() && f[j].name == name;
                assert(j != 0);
                assert(f.drop_first()[j - 1] == f[j]);
                assert(frame_has(f.drop_first(), name));
            }
        }
    }
}

impl Frame {
    /// An empty frame.
    pub fn new() -> (r: Frame)
        ensures
            r@ == Seq::<SymV>::empty(),
    {
        let r = Frame { entries: Vec::new() };
        proof {
            assert(r@ =~= Seq::<SymV>::empty());
        }
        r
    }

    /// First binding of `name` in this frame, if any.
    pub fn get(&self, name: &SymbolName) -> (r: Option<SymbolRef>)
        ensures
            match r {
                Some(s) => frame_lookup(self@, name@) == Some(s@),
                None => frame_lookup(self@, name@) is None,
            },
    {
        let mut i: usize = 0;
        proof {
            assert(self@.skip(0) =~= self@);
        }
        while i < self.entries.len()
            invariant
                i <= self.entries.len(),
                forall|k: int| 0 <= k < i ==> (#[trigger] self@[k]).name != name@,
                frame_lookup(self@, name@) == frame_lookup(self@.skip(i as int), name@),
            decreases self.entries.len() - i,
        {
            proof {
                assert(self@.skip(i as int)[0] == self@[i as int]);
                assert(self@.skip(i as int).drop_first() =~= self@.skip(i as int + 1));
            }
            if self.entries[i].name().eq(name) {
                return Some(self.entries[i].clone());
            }
            i = i + 1;
        }
        proof {
            assert(self@.skip(i as int) =~= Seq::<SymV>::empty());
        }
        None
    }

    /// Adds a binding to this frame.
    pub fn push(&mut self, sym: &SymbolRef)
        ensures
            final(self)@ == old(self)@.push(sym@),
    {
        self.entries.push(sym.clone());
        proof {
            assert(final(self)@ =~= old(self)@.push(sym@));
        }
    }
}

impl Context {
    /// A table with no symbols and one (root) frame.
    pub fn new() -> (r: Context)
        ensures
            r@.symbols == Seq::<SymV>::empty(),
            r@.frames == seq![Seq::<SymV>::empty()],
            ctx_wf(r@),
    {
        let mut frames: Vec<Frame> = Vec::new();
        frames.push(Frame::new());
        let r = Context { symbols: Vec::new(), frames };
        proof {
            assert(r@.symbols =~= Seq::<SymV>::empty());
            assert(r@.frames =~= seq![Seq::<SymV>::empty()]);
        }
        r
    }

    /// Declares `name`: fails with `AlreadyDeclared` when the name is
    /// visible in any active frame, otherwise registers a fresh symbol
    /// under the next dense id and binds it in the innermost frame.
    pub fn decl(&mut self, name: SymbolName) -> (r: Result<SymbolRef, ErrorKind>)
        requires
            ctx_wf(old(self)@),
            old(self)@.frames.len() >= 1,
        ensures
            ctx_wf(final(self)@),
            final(self)@.frames.len() == old(self)@.frames.len(),
            match r {
                Ok(s) => Ok::<SymV, ErrKindV>(s@) == decl_spec(old(self)@, name@).0
                    && final(self)@ == decl_spec(old(self)@, name@).1,
                Err(e) => Err::<SymV, ErrKindV>(e@) == decl_spec(old(self)@, name@).0
                    && final(self)@ == old(self)@,
            },
    {
        let found = self.by_name_ref(&name);
        proof {
            lemma_lookup_visible(self@.frames, name@);
        }
        if found {
            Err(ErrorKind::AlreadyDeclared(name))
        } else {
            let ghost pre = self@;
            let next_id = self.symbols.len();
            let sym = Symbol::new(name, next_id).into_ref();
            self.symbols.push(sym.clone());
            let mut frame = self.frames.pop().unwrap();
            frame.push(&sym);
            self.frames.push(frame);
            proof {
                assert(self@.symbols =~= pre.symbols.push(sym@));
                assert(self@.frames =~= pre.frames.update(
                    pre.frames.len() - 1,
                    pre.frames.last().push(sym@),
                ));
                lemma_decl_preserves_wf(pre, sym@, self@);
            }
            Ok(sym)
        }
    }

    /// Whether `name` is visible, without building a result.
    fn by_name_ref(&self, name: &SymbolName) -> (r: bool)
        ensures
            r == visible(self@, name@),
    {
        let mut i: usize = self.frames.len();
        while i > 0
            invariant
                i <= self.frames.len(),
                forall|k: int|
                    i <= k < self@.frames.len() ==> !frame_has(#[trigger] self@.frames[k], name@),
            decreases i,
        {
            i = i - 1;
            match self.frames[i].get(name) {
                Some(_) => {
                    proof {
                        lemma_frame_lookup_has(self@.frames[i as int], name@);
                    }
                    return true;
                },
                None => {
                    proof {
                        lemma_frame_lookup_has(self@.frames[i as int], name@);
                    }
                },
            }
        }
        false
    }

    /// Looks `name` up through the active frames, innermost first.
    pub fn by_name(&mut self, name: SymbolName) -> (r: Result<SymbolRef, ErrorKind>)
        ensures
            final(self)@ == old(self)@,
            match r {
                Ok(s) => lookup_spec(old(self)@, name@) == Ok::<SymV, ErrKindV>(s@),
                Err(e) => lookup_spec(old(self)@, name@) == Err::<SymV, ErrKindV>(e@),
            },
    {
        let mut i: usize = self.frames.len();
        proof {
            assert(self@.frames.take(i as int) =~= self@.frames);
        }
        while i > 0
            invariant
                i <= self.frames.len(),
                frames_lookup(self@.frames, name@) == frames_lookup(
                    self@.frames.take(i as int),
                    name@,
                ),
            decreases i,
        {
            i = i - 1;
            proof {
                assert(self@.frames.take(i as int + 1).last() == self@.frames[i as int]);
                assert(self@.frames.take(i as int + 1).drop_last() =~= self@.frames.take(i as int));
            }
            match self.frames[i].get(&name) {
                Some(s) => {
                    return Ok(s);
                },
                None => {},
            }
        }
        proof {
            assert(self@.frames.take(0) =~= Seq::<Seq<SymV>>::empty());
        }
        Err(ErrorKind::NotDeclared(name))
    }

    /// Opens a new innermost frame.
    pub fn push(&mut self)
        ensures
            final(self)@.symbols == old(self)@.symbols,
            final(self)@.frames == old(self)@.frames.push(Seq::<SymV>::empty()),
            ctx_wf(old(self)@) ==> ctx_wf(final(self)@),
    {
        self.frames.push(Frame::new());
        proof {
            assert(final(self)@.symbols =~= old(self)@.symbols);
            assert(final(self)@.frames =~= old(self)@.frames.push(Seq::<SymV>::empty()));
            if ctx_wf(old(self)@) {
                lemma_wf_frames(old(self)@, final(self)@);
            }
        }
    }

    /// Closes the innermost frame (no effect on an empty stack).
    pub fn pop(&mut self)
        ensures
            final(self)@.symbols == old(self)@.symbols,
            old(self)@.frames.len() > 0 ==> final(self)@.frames == old(self)@.frames.drop_last(),
            old(self)@.frames.len() == 0 ==> final(self)@.frames == old(self)@.frames,
            ctx_wf(old(self)@) ==> ctx_wf(final(self)@),
    {
        let _ = self.frames.pop();
        proof {
            assert(final(self)@.symbols =~= old(self)@.symbols);
            if old(self)@.frames.len() > 0 {
                assert(final(self)@.frames =~= old(self)@.frames.drop_last());
            } else {
                assert(final(self)@.frames =~= old(self)@.frames);
            }
            if ctx_wf(old(self)@) {
                lemma_wf_frames(old(self)@, final(self)@);
            }
        }
    }
}

/// Well-formedness survives a frame-stack change whose frames each
/// come unchanged from a well-formed table over the same symbols, or
/// are empty.
proof fn lemma_wf_frames(o: CtxV, c: CtxV)
    requires
        ctx_wf(o),
        c.symbols == o.symbols,
        forall|i: int|
            0 <= i < c.frames.len() ==> (i < o.frames.len() && #[trigger] c.frames[i]
                == o.frames[i]) || c.frames[i].len() == 0,
    ensures
        ctx_wf(c),
{
    assert forall|i: int, j: int|
        0 <= i < c.frames.len() && 0 <= j < c.frames[i].len() implies (
    #[trigger] c.frames[i][j]).id < c.symbols.len() && c.symbols[c.frames[i][j].id as int]
        == c.frames[i][j] by {
        assert(c.frames[i] == o.frames[i]);
    }
    assert forall|i1: int, j1: int, i2: int, j2: int|
        0 <= i1 < c.frames.len() && 0 <= j1 < c.frames[i1].len() && 0 <= i2 < c.frames.len() && 0
            <= j2 < c.frames[i2].len() && (#[trigger] c.frames[i1][j1]).name == (
        #[trigger] c.frames[i2][j2]).name implies i1 == i2 && j1 == j2 by {
        assert(c.frames[i1] == o.frames[i1]);
        assert(c.frames[i2] == o.frames[i2]);
    }
}

/// Declaring an unseen name keeps the table well-formed.
proof fn lemma_decl_preserves_wf(pre: CtxV, sym: SymV, post: CtxV)
    requires
        ctx_wf(pre),
        pre.frames.len() >= 1,
        !visible(pre, sym.name),
        sym.id == pre.symbols.len(),
        post.symbols == pre.symbols.push(sym),
        post.frames == pre.frames.update(pre.frames.len() - 1, pre.frames.last().push(sym)),
    ensures
        ctx_wf(post),
{
    let n = pre.frames.len() - 1;
    assert forall|i: int, j: int|
        0 <= i < post.frames.len() && 0 <= j < post.frames[i].len() implies (
    #[trigger] post.frames[i][j]).id < post.symbols.len() && post.symbols[post.frames[i][j].id
        as int] == post.frames[i][j] by {
        if i == n && j == post.frames[i].len() - 1 {
            assert(post.frames[i][j] == sym);
        } else {
            assert(post.frames[i][j] == pre.frames[i][j]);
        }
    }
    assert forall|i1: int, j1: int, i2: int, j2: int|
        0 <= i1 < post.frames.len() && 0 <= j1 < post.frames[i1].len() && 0 <= i2
            < post.frames.len() && 0 <= j2 < post.frames[i2].len() && (
        #[trigger] post.frames[i1][j1]).name == (#[trigger] post.frames[i2][j2]).name implies i1
        == i2 && j1 == j2 by {
        let new1 = i1 == n && j1 == post.frames[i1].len() - 1;
        let new2 = i2 == n && j2 == post.frames[i2].len() - 1;
        if new1 && !new2 {
            assert(post.frames[i2][j2] == pre.frames[i2][j2]);
            assert(frame_has(pre.frames[i2], sym.name));
            assert(visible(pre, sym.name));
        } else if !new1 && new2 {
            assert(post.frames[i1][j1] == pre.frames[i1][j1]);
            assert(frame_has(pre.frames[i1], sym.name));
            assert(visible(pre, sym.name));
        } else if !new1 && !new2 {
            assert(post.frames[i1][j1] == pre.frames[i1][j1]);
            assert(post.frames[i2][j2] == pre.frames[i2][j2]);
        }
    }
}

} // verus!
