//! Running a mesh's GPU commands for the shape of the geometry they draw:
//! which vertices make up which triangles, and which part of the index
//! buffer each draw call produced. (Vertex positions, colors and texture
//! coordinates are floating point values, worked out beside this.)

use vstd::prelude::*;
use std::ops::Range;
use crate::errors::ErrorMsg;
use crate::nds::gpu_cmds::{CmdParser, GpuCmd, ParseState, initial_state, step, result_view};
use super::DrawCall;
use super::index_builder::{IndexBuilder, prim_indices, valid_prim_group};

verus! {

/// The part of the geometry that GPU commands change: the index builder's
/// indices and current group, and where the current draw call's indices end.
pub struct TopoView {
    pub indices: Seq<u16>,
    pub prim_type: u32,
    pub prim_start: int,
    pub prim_end: int,
    pub open: bool,
    pub index_end: int,
}

/// The current group of `t` can be flushed: its vertices form whole
/// primitives.
pub open spec fn topo_flushable(t: TopoView) -> bool {
    t.prim_start <= t.prim_end && valid_prim_group(t.prim_type, (t.prim_end - t.prim_start) as nat)
}

/// `t` with its current group flushed to the indices.
pub open spec fn topo_flushed(t: TopoView) -> Seq<u16> {
    t.indices + prim_indices(t.prim_type, t.prim_start, t.prim_end)
}

/// What command `cmd` does to `t`: `Begin` closes an open group and starts
/// a new one after the vertices so far, `End` flushes the group and marks
/// where the draw call's indices now end, `Vertex` adds a vertex to the
/// group. Other commands leave the topology alone.
pub open spec fn apply_cmd(t: TopoView, cmd: GpuCmd) -> TopoView {
    match cmd {
        GpuCmd::Begin { prim_type } => TopoView {
            indices: if t.open { topo_flushed(t) } else { t.indices },
            prim_type,
            prim_start: t.prim_end,
            open: true,
            ..t
        },
        GpuCmd::End => TopoView {
            indices: topo_flushed(t),
            open: false,
            index_end: topo_flushed(t).len() as int,
            ..t
        },
        GpuCmd::Vertex { .. } => TopoView { prim_end: t.prim_end + 1, ..t },
        _ => t,
    }
}

/// Command `cmd` can run on `t`: a group it closes forms whole primitives,
/// and a vertex it adds is counted within `u16`.
pub open spec fn cmd_ok(t: TopoView, cmd: GpuCmd) -> bool {
    match cmd {
        GpuCmd::Begin { .. } => t.open ==> topo_flushable(t),
        GpuCmd::End => topo_flushable(t),
        GpuCmd::Vertex { .. } => t.prim_end < u16::MAX,
        _ => true,
    }
}

/// Each command the parser hands out consumes some of its input.
pub proof fn lemma_step_shrinks(st: ParseState)
    ensures
        ({
            let (st1, r) = step(st);
            r matches Some(Ok(_)) ==> st1.fifo.len() + st1.buf.len() < st.fifo.len() + st.buf.len()
        }),
{
}

/// Running the commands still to be parsed from `st` on `t`: the topology
/// after the last command, and the parser's error if it stopped on one.
pub open spec fn run_cmds(st: ParseState, t: TopoView) -> (TopoView, Result<(), Seq<char>>)
    decreases st.fifo.len() + st.buf.len(),
{
    let (st1, r) = step(st);
    match r {
        None => (t, Ok(())),
        Some(Err(m)) => (t, Err(m)),
        Some(Ok(cmd)) => {
            proof { lemma_step_shrinks(st); }
            run_cmds(st1, apply_cmd(t, cmd))
        },
    }
}

/// Every command still to be parsed from `st` can run, in turn, from `t`.
pub open spec fn cmds_ok(st: ParseState, t: TopoView) -> bool
    decreases st.fifo.len() + st.buf.len(),
{
    let (st1, r) = step(st);
    match r {
        Some(Ok(cmd)) => {
            proof { lemma_step_shrinks(st); }
            cmd_ok(t, cmd) && cmds_ok(st1, apply_cmd(t, cmd))
        },
        _ => true,
    }
}

/// Whether commands can run depends only on the current group, not on the
/// indices so far or where the draw call's indices end.
pub proof fn lemma_cmds_ok_ignores_indices(st: ParseState, t1: TopoView, t2: TopoView)
    requires
        t1.prim_type == t2.prim_type,
        t1.prim_start == t2.prim_start,
        t1.prim_end == t2.prim_end,
        t1.open == t2.open,
    ensures
        cmds_ok(st, t1) == cmds_ok(st, t2),
    decreases st.fifo.len() + st.buf.len(),
{
    let (st1, r) = step(st);
    if let Some(Ok(cmd)) = r {
        lemma_step_shrinks(st);
        lemma_cmds_ok_ignores_indices(st1, apply_cmd(t1, cmd), apply_cmd(t2, cmd));
    }
}

/// Whether `len` vertices form whole primitives of type `ty`.
fn is_valid_prim_group(ty: u32, len: u32) -> (b: bool)
    ensures
        b == valid_prim_group(ty, len as nat),
{
    if ty == 0 {
        len % 3 == 0
    } else if ty == 1 {
        len % 4 == 0
    } else if ty == 2 {
        len == 0 || len >= 3
    } else if ty == 3 {
        len == 0 || (len >= 4 && len % 2 == 0)
    } else {
        false
    }
}

/// Builds the index buffer and the draw calls of a model from the GPU
/// commands of the meshes it draws.
pub struct TopologyBuilder {
    pub ind_builder: IndexBuilder,
    pub draw_calls: Vec<DrawCall>,
    pub cur_draw_call: DrawCall,
}

impl TopologyBuilder {
    /// The part of the builder that GPU commands change.
    pub open spec fn topo(&self) -> TopoView {
        TopoView {
            indices: self.ind_builder.indices@,
            prim_type: self.ind_builder.prim_type(),
            prim_start: self.ind_builder.prim_start(),
            prim_end: self.ind_builder.prim_end(),
            open: self.ind_builder.is_open(),
            index_end: self.cur_draw_call.index_range.end as int,
        }
    }

    /// The number of vertices sent so far.
    pub open spec fn num_vertices(&self) -> int {
        self.ind_builder.prim_end()
    }

    pub fn new() -> (b: TopologyBuilder)
        ensures
            b.topo() == (TopoView {
                indices: Seq::empty(),
                prim_type: 0,
                prim_start: 0,
                prim_end: 0,
                open: false,
                index_end: 0,
            }),
            b.draw_calls@.len() == 0,
            b.cur_draw_call.vertex_range == (Range::<u16> { start: 0, end: 0 }),
            b.cur_draw_call.index_range == (Range::<usize> { start: 0, end: 0 }),
            b.cur_draw_call.mat_id == 0,
            b.cur_draw_call.mesh_id == 0,
    {
        TopologyBuilder {
            ind_builder: IndexBuilder::new(),
            draw_calls: Vec::new(),
            cur_draw_call: DrawCall {
                vertex_range: Range { start: 0, end: 0 },
                index_range: Range { start: 0, end: 0 },
                mat_id: 0,
                mesh_id: 0,
            },
        }
    }

    /// Starts a draw call of mesh `mesh_id` with material `mat_id`: its
    /// vertices and indices start after those so far.
    pub fn begin_draw_call(&mut self, mesh_id: u8, mat_id: u8)
        ensures
            final(self).ind_builder == old(self).ind_builder,
            final(self).draw_calls@ == old(self).draw_calls@,
            final(self).cur_draw_call.vertex_range
                == (Range::<u16> { start: old(self).num_vertices() as u16, end: old(self).num_vertices() as u16 }),
            final(self).cur_draw_call.index_range == (Range::<usize> {
                start: old(self).ind_builder.indices@.len() as usize,
                end: old(self).ind_builder.indices@.len() as usize,
            }),
            final(self).cur_draw_call.mat_id == mat_id,
            final(self).cur_draw_call.mesh_id == mesh_id,
    {
        let len = self.ind_builder.cur_prim_range.end;
        self.cur_draw_call.vertex_range = Range { start: len, end: len };
        let len = self.ind_builder.indices.len();
        self.cur_draw_call.index_range = Range { start: len, end: len };
        self.cur_draw_call.mat_id = mat_id;
        self.cur_draw_call.mesh_id = mesh_id;
    }

    /// Ends the current draw call at the vertices and indices so far and
    /// records it.
    pub fn end_draw_call(&mut self)
        ensures
            final(self).ind_builder == old(self).ind_builder,
            final(self).draw_calls@.len() == old(self).draw_calls@.len() + 1,
            forall|i: int| 0 <= i < old(self).draw_calls@.len() ==> final(self).draw_calls@[i] == old(self).draw_calls@[i],
            final(self).cur_draw_call.vertex_range == (Range::<u16> {
                start: old(self).cur_draw_call.vertex_range.start,
                end: old(self).num_vertices() as u16,
            }),
            final(self).cur_draw_call.index_range == (Range::<usize> {
                start: old(self).cur_draw_call.index_range.start,
                end: old(self).ind_builder.indices@.len() as usize,
            }),
            final(self).cur_draw_call.mat_id == old(self).cur_draw_call.mat_id,
            final(self).cur_draw_call.mesh_id == old(self).cur_draw_call.mesh_id,
            final(self).draw_calls@.last() == final(self).cur_draw_call,
    {
        let len = self.ind_builder.cur_prim_range.end;
        self.cur_draw_call.vertex_range = Range { start: self.cur_draw_call.vertex_range.start, end: len };
        let len = self.ind_builder.indices.len();
        self.cur_draw_call.index_range = Range { start: self.cur_draw_call.index_range.start, end: len };
        let call = DrawCall {
            vertex_range: Range { start: self.cur_draw_call.vertex_range.start, end: self.cur_draw_call.vertex_range.end },
            index_range: Range { start: self.cur_draw_call.index_range.start, end: self.cur_draw_call.index_range.end },
            mat_id: self.cur_draw_call.mat_id,
            mesh_id: self.cur_draw_call.mesh_id,
        };
        self.draw_calls.push(call);
    }

    /// Runs one GPU command on the topology.
    pub fn run_gpu_cmd(&mut self, cmd: &GpuCmd)
        requires
            cmd_ok(old(self).topo(), *cmd),
        ensures
            final(self).topo() == apply_cmd(old(self).topo(), *cmd),
            final(self).draw_calls@ == old(self).draw_calls@,
            final(self).cur_draw_call.vertex_range == old(self).cur_draw_call.vertex_range,
            final(self).cur_draw_call.index_range.start == old(self).cur_draw_call.index_range.start,
            final(self).cur_draw_call.mat_id == old(self).cur_draw_call.mat_id,
            final(self).cur_draw_call.mesh_id == old(self).cur_draw_call.mesh_id,
    {
        match cmd {
            GpuCmd::Begin { prim_type } => self.ind_builder.begin(*prim_type),
            GpuCmd::End => {
                self.ind_builder.end();
                self.cur_draw_call.index_range.end = self.ind_builder.indices.len();
            },
            GpuCmd::Vertex { .. } => self.ind_builder.vertex(),
            _ => {},
        }
        assert(self.topo() =~= apply_cmd(old(self).topo(), *cmd));
    }

    /// Whether every GPU command of `commands` can run on the topology, in
    /// turn (what `run_gpu_cmds` and `draw` require).
    pub fn cmds_checked(&self, commands: &[u8]) -> (b: bool)
        ensures
            b == cmds_ok(initial_state(commands@), self.topo()),
    {
        let mut parser = CmdParser::new(commands);
        let mut ty: u32 = self.ind_builder.cur_prim_type;
        let mut start: u32 = self.ind_builder.cur_prim_range.start as u32;
        let mut end: u32 = self.ind_builder.cur_prim_range.end as u32;
        let mut open: bool = self.ind_builder.group_open;
        let ghost mut t = self.topo();
        let ghost goal = cmds_ok(initial_state(commands@), self.topo());
        loop
            invariant
                parser.wf(),
                goal == cmds_ok(initial_state(commands@), self.topo()),
                cmds_ok(parser.state(), t) == goal,
                t.prim_type == ty,
                t.prim_start == start,
                t.prim_end == end,
                t.open == open,
                start <= u16::MAX,
                end <= u16::MAX,
            decreases parser.state().fifo.len() + parser.state().buf.len(),
        {
            let ghost st = parser.state();
            let next = parser.next();
            proof {
                lemma_step_shrinks(st);
                assert(step(st).1 == result_view(next));
            }
            match next {
                Some(Ok(cmd)) => {
                    assert(step(st).1 == Some(Ok::<GpuCmd, Seq<char>>(cmd)));
                    assert(cmds_ok(st, t) == (cmd_ok(t, cmd) && cmds_ok(parser.state(), apply_cmd(t, cmd))));
                    let flushable = start <= end && is_valid_prim_group(ty, end - start);
                    match cmd {
                        GpuCmd::Begin { prim_type } => {
                            if open && !flushable {
                                return false;
                            }
                            ty = prim_type;
                            start = end;
                            open = true;
                        },
                        GpuCmd::End => {
                            if !flushable {
                                return false;
                            }
                            open = false;
                        },
                        GpuCmd::Vertex { .. } => {
                            if end >= 0xffff {
                                return false;
                            }
                            end = end + 1;
                        },
                        _ => {},
                    }
                    proof { t = apply_cmd(t, cmd); }
                },
                _ => {
                    assert(cmds_ok(st, t));
                    return true;
                },
            }
        }
    }

    /// Runs the GPU commands `commands` on the topology, stopping at the
    /// first command that cannot be parsed.
    pub fn run_gpu_cmds(&mut self, commands: &[u8]) -> (r: Result<(), ErrorMsg>)
        requires
            cmds_ok(initial_state(commands@), old(self).topo()),
        ensures
            ({
                let (t, res) = run_cmds(initial_state(commands@), old(self).topo());
                &&& final(self).topo() == t
                &&& match r {
                    Ok(()) => res is Ok,
                    Err(e) => res == Err::<(), Seq<char>>(e.msg@),
                }
            }),
            final(self).draw_calls@ == old(self).draw_calls@,
            final(self).cur_draw_call.vertex_range == old(self).cur_draw_call.vertex_range,
            final(self).cur_draw_call.index_range.start == old(self).cur_draw_call.index_range.start,
            final(self).cur_draw_call.mat_id == old(self).cur_draw_call.mat_id,
            final(self).cur_draw_call.mesh_id == old(self).cur_draw_call.mesh_id,
    {
        let mut parser = CmdParser::new(commands);
        let ghost goal = run_cmds(initial_state(commands@), old(self).topo());
        loop
            invariant
                parser.wf(),
                cmds_ok(parser.state(), self.topo()),
                run_cmds(parser.state(), self.topo()) == goal,
                goal == run_cmds(initial_state(commands@), old(self).topo()),
                self.draw_calls@ == old(self).draw_calls@,
                self.cur_draw_call.vertex_range == old(self).cur_draw_call.vertex_range,
                self.cur_draw_call.index_range.start == old(self).cur_draw_call.index_range.start,
                self.cur_draw_call.mat_id == old(self).cur_draw_call.mat_id,
                self.cur_draw_call.mesh_id == old(self).cur_draw_call.mesh_id,
            decreases parser.state().fifo.len() + parser.state().buf.len(),
        {
            let ghost st = parser.state();
            let ghost t = self.topo();
            let next = parser.next();
            proof {
                lemma_step_shrinks(st);
                assert(step(st).1 == result_view(next));
            }
            match next {
                None => {
                    assert(run_cmds(st, t) == (t, Ok::<(), Seq<char>>(())));
                    return Ok(());
                },
                Some(Err(e)) => {
                    assert(run_cmds(st, t) == (t, Err::<(), Seq<char>>(e.msg@)));
                    return Err(e);
                },
                Some(Ok(cmd)) => {
                    assert(step(st).1 == Some(Ok::<GpuCmd, Seq<char>>(cmd)));
                    assert(cmd_ok(t, cmd) && cmds_ok(parser.state(), apply_cmd(t, cmd)));
                    assert(run_cmds(st, t) == run_cmds(parser.state(), apply_cmd(t, cmd)));
                    self.run_gpu_cmd(&cmd);
                },
            }
        }
    }

    /// Draws a mesh whose GPU commands are `commands` with material
    /// `mat_id`, as one draw call.
    pub fn draw(&mut self, mesh_id: u8, mat_id: u8, commands: &[u8]) -> (r: Result<(), ErrorMsg>)
        requires
            cmds_ok(initial_state(commands@), old(self).topo()),
        ensures
            ({
                let (t, res) = run_cmds(initial_state(commands@), TopoView {
                    index_end: old(self).ind_builder.indices@.len() as int,
                    ..old(self).topo()
                });
                match r {
                    Ok(()) => {
                        &&& res is Ok
                        &&& final(self).topo() == TopoView { index_end: t.indices.len() as int, ..t }
                        &&& final(self).draw_calls@ == old(self).draw_calls@.push(final(self).cur_draw_call)
                        &&& final(self).cur_draw_call.vertex_range == (Range::<u16> {
                            start: old(self).num_vertices() as u16,
                            end: t.prim_end as u16,
                        })
                        &&& final(self).cur_draw_call.index_range == (Range::<usize> {
                            start: old(self).ind_builder.indices@.len() as usize,
                            end: t.indices.len() as usize,
                        })
                        &&& final(self).cur_draw_call.mat_id == mat_id
                        &&& final(self).cur_draw_call.mesh_id == mesh_id
                    },
                    Err(e) => {
                        &&& res == Err::<(), Seq<char>>(e.msg@)
                        &&& final(self).topo() == t
                        &&& final(self).draw_calls@ == old(self).draw_calls@
                    },
                }
            }),
    {
        let ghost n = self.ind_builder.indices.len();
        proof {
            lemma_cmds_ok_ignores_indices(initial_state(commands@), old(self).topo(),
                TopoView { index_end: old(self).ind_builder.indices@.len() as int, ..old(self).topo() });
        }
        self.begin_draw_call(mesh_id, mat_id);
        assert(n == old(self).ind_builder.indices@.len());
        assert(self.topo() == (TopoView { index_end: old(self).ind_builder.indices@.len() as int, ..old(self).topo() }));
        let r = self.run_gpu_cmds(commands);
        match r {
            Ok(()) => {
                let ghost t0 = self.topo();
                let ghost ni = self.ind_builder.indices.len();
                self.end_draw_call();
                assert(self.draw_calls@ =~= old(self).draw_calls@.push(self.cur_draw_call));
                assert(ni == t0.indices.len());
                assert(self.topo() == TopoView { index_end: t0.indices.len() as int, ..t0 });
                assert(self.cur_draw_call.vertex_range.end == t0.prim_end as u16);
                assert(self.cur_draw_call.index_range.end == t0.indices.len() as usize);
                Ok(())
            },
            Err(e) => Err(e),
        }
    }
}

} // verus!
