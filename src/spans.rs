//! The draw-span walk: each GUI draw command with a non-zero element count
//! becomes one indexed draw over the next contiguous range of the index buffer,
//! in command order, with the command's texture and scissor rectangle.

use crate::registry::TextureRegistry;
use vstd::prelude::*;

verus! {

/// A scissor rectangle in integer device pixels.
#[derive(Clone, Copy, Debug, PartialEq, Eq, Structural)]
pub struct ScissorRect {
    pub x: u32,
    pub y: u32,
    pub w: u32,
    pub h: u32,
}

/// One entry of the GUI toolkit's command list, its clip rectangle already
/// scaled to device pixels.
#[derive(Clone, Copy, Debug, PartialEq, Eq, Structural)]
pub struct DrawCommand {
    pub element_count: u32,
    pub texture_id: i32,
    pub scissor: ScissorRect,
}

/// One indexed draw call: indices `start..end`, with the texture that
/// `texture_id` names bound and `scissor` set.
#[derive(Clone, Copy, Debug, PartialEq, Eq, Structural)]
pub struct DrawSpan {
    pub texture_id: i32,
    pub start: u32,
    pub end: u32,
    pub scissor: ScissorRect,
}

/// Why a command list cannot be drawn.
#[derive(Clone, Copy, Debug, PartialEq, Eq, Structural)]
pub enum DrawError {
    /// A command with elements names a texture handle that was never given out.
    UnknownTexture(i32),
    /// The running index offset would not fit in 32 bits.
    IndexOverflow,
}

/// What one command does when the running index offset is `start` and
/// `n_textures` textures are registered.
pub open spec fn step_spec(start: u32, n_textures: int, cmd: DrawCommand) -> Result<
    Option<DrawSpan>,
    DrawError,
> {
    if cmd.element_count == 0 {
        Ok(None)
    } else if !(1 <= cmd.texture_id && cmd.texture_id <= n_textures) {
        Err(DrawError::UnknownTexture(cmd.texture_id))
    } else if start + cmd.element_count > u32::MAX {
        Err(DrawError::IndexOverflow)
    } else {
        Ok(
            Some(
                DrawSpan {
                    texture_id: cmd.texture_id,
                    start,
                    end: (start + cmd.element_count) as u32,
                    scissor: cmd.scissor,
                },
            ),
        )
    }
}

/// The spans a whole command list yields, with the running offset after it;
/// the first failing command decides the error.
pub open spec fn walk(cmds: Seq<DrawCommand>, n_textures: int) -> Result<
    (Seq<DrawSpan>, u32),
    DrawError,
>
    decreases cmds.len(),
{
    if cmds.len() == 0 {
        Ok((Seq::empty(), 0u32))
    } else {
        match walk(cmds.drop_last(), n_textures) {
            Err(e) => Err(e),
            Ok((spans, start)) => match step_spec(start, n_textures, cmds.last()) {
                Err(e) => Err(e),
                Ok(None) => Ok((spans, start)),
                Ok(Some(s)) => Ok((spans.push(s), s.end)),
            },
        }
    }
}

/// Sum of the element counts of `cmds`.
pub open spec fn total_elements(cmds: Seq<DrawCommand>) -> int
    decreases cmds.len(),
{
    if cmds.len() == 0 {
        0
    } else {
        total_elements(cmds.drop_last()) + cmds.last().element_count
    }
}

/// Number of commands in `cmds` that have elements.
pub open spec fn nonempty_count(cmds: Seq<DrawCommand>) -> int
    decreases cmds.len(),
{
    if cmds.len() == 0 {
        0
    } else {
        nonempty_count(cmds.drop_last()) + if cmds.last().element_count > 0 {
            1int
        } else {
            0int
        }
    }
}

/// The running state of the walk over one frame's command list.
pub struct SpanWalker {
    next: u32,
}

impl SpanWalker {
    /// Index offset at which the next span starts.
    pub closed spec fn offset_spec(&self) -> u32 {
        self.next
    }

    /// A walk at the start of the index buffer.
    pub fn new() -> (r: Self)
        ensures
            r.offset_spec() == 0,
    {
        SpanWalker { next: 0 }
    }

    /// Index offset at which the next span starts.
    pub fn offset(&self) -> (r: u32)
        ensures
            r == self.offset_spec(),
    {
        self.next
    }

    /// Consumes one command: a command without elements yields no span and
    /// leaves the offset where it was; any other yields the span over the next
    /// `element_count` indices and moves the offset past it.
    pub fn step<T>(&mut self, textures: &TextureRegistry<T>, cmd: &DrawCommand) -> (r: Result<
        Option<DrawSpan>,
        DrawError,
    >)
        ensures
            r == step_spec(old(self).offset_spec(), textures@.len() as int, *cmd),
            final(self).offset_spec() == match r {
                Ok(Some(s)) => s.end,
                _ => old(self).offset_spec(),
            },
    {
        if cmd.element_count == 0 {
            return Ok(None);
        }
        let known = textures.find_res(cmd.texture_id);
        if known.is_none() {
            return Err(DrawError::UnknownTexture(cmd.texture_id));
        }
        if cmd.element_count > u32::MAX - self.next {
            return Err(DrawError::IndexOverflow);
        }
        let span = DrawSpan {
            texture_id: cmd.texture_id,
            start: self.next,
            end: self.next + cmd.element_count,
            scissor: cmd.scissor,
        };
        self.next = span.end;
        Ok(Some(span))
    }
}

/// All the draw spans of one frame's command list, in command order.
pub fn plan_frame<T>(textures: &TextureRegistry<T>, cmds: &Vec<DrawCommand>) -> (r: Result<
    Vec<DrawSpan>,
    DrawError,
>)
    ensures
        r is Ok == walk(cmds@, textures@.len() as int) is Ok,
        r is Ok ==> (r->Ok_0)@ == walk(cmds@, textures@.len() as int)->Ok_0.0,
        r is Err ==> r->Err_0 == walk(cmds@, textures@.len() as int)->Err_0,
{
    let ghost n = textures@.len() as int;
    let mut walker = SpanWalker::new();
    let mut spans: Vec<DrawSpan> = Vec::new();
    let mut i: usize = 0;
    while i < cmds.len()
        invariant
            i <= cmds@.len(),
            walk(cmds@.take(i as int), n) == Ok::<(Seq<DrawSpan>, u32), DrawError>(
                (spans@, walker.offset_spec()),
            ),
            n == textures@.len(),
        decreases cmds@.len() - i,
    {
        assert(cmds@.take(i as int + 1).drop_last() == cmds@.take(i as int));
        match walker.step(textures, &cmds[i]) {
            Err(e) => {
                proof {
                    lemma_walk_err_extends(cmds@, i as int + 1, n);
                }
                return Err(e);
            },
            Ok(None) => {},
            Ok(Some(s)) => {
                spans.push(s);
            },
        }
        i = i + 1;
    }
    assert(cmds@.take(cmds@.len() as int) == cmds@);
    Ok(spans)
}

/// Once a prefix of the list fails, the whole list fails with the same error.
proof fn lemma_walk_err_extends(cmds: Seq<DrawCommand>, k: int, n: int)
    requires
        0 <= k <= cmds.len(),
        walk(cmds.take(k), n) is Err,
    ensures
        walk(cmds, n) == walk(cmds.take(k), n),
    decreases cmds.len() - k,
{
    if k < cmds.len() {
        assert(cmds.take(k + 1).drop_last() == cmds.take(k));
        lemma_walk_err_extends(cmds, k + 1, n);
    } else {
        assert(cmds.take(k) == cmds);
    }
}

/// Sum of the lengths of `spans`.
pub open spec fn span_total(spans: Seq<DrawSpan>) -> int
    decreases spans.len(),
{
    if spans.len() == 0 {
        0
    } else {
        span_total(spans.drop_last()) + (spans.last().end - spans.last().start)
    }
}

/// `spans` cover `0..total` in order, without gaps or overlaps, each non-empty.
pub open spec fn partitions(spans: Seq<DrawSpan>, total: int) -> bool {
    &&& spans.len() == 0 ==> total == 0
    &&& spans.len() > 0 ==> spans[0].start == 0 && spans.last().end == total
    &&& forall|j: int| 0 <= j < spans.len() ==> #[trigger] spans[j].start < spans[j].end
    &&& forall|j: int|
        #![trigger spans[j]]
        0 <= j < spans.len() - 1 ==> spans[j].end == spans[j + 1].start
}

/// Every command with elements names one of `n_textures` registered textures.
pub open spec fn textures_known(cmds: Seq<DrawCommand>, n_textures: int) -> bool {
    forall|i: int|
        0 <= i < cmds.len() && (#[trigger] cmds[i]).element_count > 0 ==> 1 <= cmds[i].texture_id
            <= n_textures
}

/// When every command with elements names a registered texture and the element
/// counts sum to at most the 32-bit index range, the walk succeeds: it yields
/// one span per command with elements, the spans partition `0..total` in
/// command order, their lengths sum to the total, and the offset after the
/// walk is the total.
pub proof fn lemma_spans_partition(cmds: Seq<DrawCommand>, n_textures: int)
    requires
        textures_known(cmds, n_textures),
        total_elements(cmds) <= u32::MAX,
    ensures
        walk(cmds, n_textures) is Ok,
        walk(cmds, n_textures)->Ok_0.1 == total_elements(cmds),
        walk(cmds, n_textures)->Ok_0.0.len() == nonempty_count(cmds),
        span_total(walk(cmds, n_textures)->Ok_0.0) == total_elements(cmds),
        partitions(walk(cmds, n_textures)->Ok_0.0, total_elements(cmds)),
    decreases cmds.len(),
{
    if cmds.len() > 0 {
        let prefix = cmds.drop_last();
        assert(textures_known(prefix, n_textures)) by {
            assert forall|i: int|
                0 <= i < prefix.len() && (#[trigger] prefix[i]).element_count > 0 implies 1
                <= prefix[i].texture_id <= n_textures by {
                assert(prefix[i] == cmds[i]);
            }
        }
        lemma_spans_partition(prefix, n_textures);
        let (spans, start) = walk(prefix, n_textures)->Ok_0;
        let c = cmds.last();
        assert(c == cmds[cmds.len() - 1]);
        if c.element_count > 0 {
            let s = step_spec(start, n_textures, c)->Ok_0->Some_0;
            let next = spans.push(s);
            assert(next.drop_last() == spans);
            assert(forall|j: int| 0 <= j < spans.len() ==> next[j] == spans[j]);
        }
    }
}

/// A command without elements changes nothing, wherever it stands in the list:
/// it yields no span, and the command after it starts at the same offset.
pub proof fn lemma_empty_command_is_inert(
    cmds: Seq<DrawCommand>,
    i: int,
    empty: DrawCommand,
    n_textures: int,
)
    requires
        0 <= i <= cmds.len(),
        empty.element_count == 0,
    ensures
        walk(cmds.insert(i, empty), n_textures) == walk(cmds, n_textures),
    decreases cmds.len(),
{
    let with = cmds.insert(i, empty);
    if i == cmds.len() {
        assert(with.drop_last() == cmds);
    } else {
        lemma_empty_command_is_inert(cmds.drop_last(), i, empty, n_textures);
        assert(with.drop_last() == cmds.drop_last().insert(i, empty));
        assert(with.last() == cmds.last());
    }
}

} // verus!
