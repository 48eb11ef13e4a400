//! The render pipeline's bookkeeping, verified as a command recorder.
//!
//! A pipeline owns per-frame instance bookkeeping — vertex, index and
//! instance counts, the instance data and the instance commands — and a
//! recorded stream of backend commands. What would go to the graphics
//! backend call by call is recorded here as plain data, in order, with an
//! exact contract per method; the host submits the recorded stream to its
//! backend.

use vstd::prelude::*;

use crate::matrix::Matrix4;
use crate::vector::Scalar;
use crate::vector::Vector2;
use crate::vector::Vector3;
use crate::vector::Vector4;

verus! {

/// Opaque identifier of a pipeline, as plain data.
#[derive(Debug, Clone, Copy, PartialEq, Eq, Hash, Structural)]
pub struct PipelineId(pub u64);

/// The shader stages a pipeline can be given.
#[derive(Debug, Clone, Copy, PartialEq, Eq, Structural)]
pub enum ShaderType {
    /// Vertex stage.
    Vertex,
    /// Fragment stage.
    Fragment,
    /// Tessellation control stage.
    TessellationControl,
    /// Tessellation evaluation stage.
    TessellationEvaluation,
    /// Geometry stage.
    Geometry,
}

/// One backend command, recorded instead of performed: the host submits the
/// stream to the rendering backend in order.
#[derive(Debug, Clone, PartialEq, Eq)]
pub enum RenderCommand {
    /// Attach the shader at `path` to the given stage.
    SetShader(ShaderType, String),
    /// Build the pipeline against the render pass it was created with.
    Build,
    /// Upload the instance bookkeeping: so many commands, so many data
    /// records.
    BindInstances(usize, usize),
    /// Bind the descriptor sets.
    BindDescriptors,
    /// Refresh the descriptor sets against so many texture atlases.
    UpdateDescriptorSets(usize),
    /// Bind the indirect-draw buffer.
    BindIndirect,
    /// Draw so many instances indirectly.
    DrawIndirect(usize),
    /// Release the backend pipeline.
    Delete,
}

/// One mesh-buffer operation, recorded instead of performed.
#[derive(Debug, Clone, Copy, PartialEq, Eq)]
pub enum MeshOp {
    /// Write a vertex and index range into the mesh buffers.
    WriteAt(MeshDataRef),
    /// Bind the vertex buffer.
    BindVertices,
    /// Bind the index buffer.
    BindIndices,
}

/// A range of the mesh buffers one instance occupies.
#[derive(Debug, Clone, Copy, PartialEq, Eq, Structural)]
pub struct MeshDataRef {
    /// First vertex slot written.
    pub first_vertex: u32,
    /// How many vertices were written.
    pub vertex_count: u32,
    /// First index slot written.
    pub first_index: u32,
    /// How many indices were written.
    pub index_count: u32,
}

/// The host's rendering device, as the plain identity it is known under.
pub struct Device {
    /// The identity the host knows the native device under.
    pub id: u64,
}

/// The render pass a pipeline is built against, as its plain identity.
pub struct RenderPass {
    /// The identity the host knows the native render pass under.
    pub id: u64,
}

impl RenderPass {
    /// The identity the host knows the native render pass under.
    pub fn get_pass(&self) -> (id: u64)
        ensures
            id == self.id,
    {
        self.id
    }
}

/// One texture atlas, as its plain identity.
pub struct TextureAtlas {
    /// The identity the host knows the atlas under.
    pub id: u64,
}

/// Where each shader of a pipeline is found; an empty path means the stage
/// is not used.
pub struct PipelineData {
    /// Path of the vertex shader.
    pub vertex_shader: String,
    /// Path of the fragment shader.
    pub fragment_shader: String,
    /// Path of the tessellation control shader, or empty.
    pub tcs_shader: String,
    /// Path of the tessellation evaluation shader, or empty.
    pub tes_shader: String,
    /// Path of the geometry shader, or empty.
    pub geometry_shader: String,
}

/// One vertex.
#[derive(Debug, Clone, Copy, PartialEq, Eq)]
pub struct VertexData<T> {
    /// Position.
    pub pos: Vector3<T>,
    /// Normal.
    pub normal: Vector3<T>,
    /// Color.
    pub color: Vector4<T>,
    /// Texture coordinates.
    pub tex_coord: Vector2<T>,
}

/// A mesh's raw geometry.
pub struct MeshData<T> {
    /// The vertices, in order.
    pub vertices: Vec<VertexData<T>>,
    /// The indices, in order.
    pub indices: Vec<u32>,
}

/// One mesh to be drawn: geometry, placement and draw area.
pub struct MeshInstance<T> {
    /// The geometry.
    pub data: MeshData<T>,
    /// The placement transform.
    pub transform: Matrix4<T>,
    /// The area drawn into.
    pub draw_area: Vector4<T>,
    /// Whether the mesh is visible this frame.
    pub visible: bool,
}

impl<T: Scalar> MeshInstance<T> {
    /// The geometry.
    pub fn get_data(&self) -> (data: &MeshData<T>)
        ensures
            data == &self.data,
    {
        &self.data
    }

    /// The placement transform.
    pub fn transform(&self) -> (transform: &Matrix4<T>)
        ensures
            transform == &self.transform,
    {
        &self.transform
    }

    /// The area drawn into.
    pub fn draw_area(&self) -> (area: Vector4<T>)
        ensures
            area == self.draw_area,
    {
        self.draw_area
    }

    /// Whether the mesh is visible this frame.
    pub fn is_visible(&self) -> (visible: bool)
        ensures
            visible == self.visible,
    {
        self.visible
    }
}

/// One slot of the instance-command buffer.
#[derive(Debug, Clone, Copy, PartialEq, Eq, Structural)]
pub struct InstanceCommand {
    /// Which instance the command draws.
    pub mesh_index: usize,
    /// The mesh-buffer ranges the instance occupies.
    pub mesh_data_ref: MeshDataRef,
}

/// One slot of the instance-data buffer: what the shaders read about one
/// drawn mesh. The placement is carried as the whole transform.
#[derive(Debug, Clone, Copy, PartialEq, Eq)]
pub struct InstanceData<T> {
    /// Placement transform of the instance.
    pub transform: Matrix4<T>,
    /// The area drawn into.
    pub draw_area: Vector4<T>,
    /// Diffuse color.
    pub diffuse_color: Vector4<T>,
    /// Index of the diffuse texture, or a negative sentinel.
    pub diffuse_texture_index: i32,
    /// Layer of the diffuse texture, or a negative sentinel.
    pub diffuse_layer_index: i32,
    /// Outline color.
    pub outline_color: Vector4<T>,
}

/// The mesh buffers of one pipeline, as the recorded stream of operations
/// the host replays against its backend buffers.
pub struct Mesh {
    ops: Vec<MeshOp>,
}

impl Mesh {
    /// The recorded buffer operations, in order.
    pub closed spec fn ops_spec(&self) -> Seq<MeshOp> {
        self.ops@
    }

    /// Fresh, empty mesh buffers on the given device.
    pub fn create(device: &Device) -> (mesh: Mesh)
        ensures
            mesh.ops_spec() == Seq::<MeshOp>::empty(),
    {
        let _ = device.id;
        Mesh { ops: Vec::new() }
    }

    /// The recorded buffer operations, in order.
    pub fn ops(&self) -> (ops: &Vec<MeshOp>)
        ensures
            ops@ == self.ops_spec(),
    {
        &self.ops
    }

    /// Records the write of `vertices` and `indices` at the given first
    /// slots and returns the occupied ranges.
    pub fn bind_at_index<T: Scalar>(
        &mut self,
        vertices: &Vec<VertexData<T>>,
        first_vertex: u32,
        indices: &Vec<u32>,
        first_index: u32,
    ) -> (r: MeshDataRef)
        requires
            vertices@.len() <= u32::MAX,
            indices@.len() <= u32::MAX,
        ensures
            r == (MeshDataRef {
                first_vertex,
                vertex_count: vertices@.len() as u32,
                first_index,
                index_count: indices@.len() as u32,
            }),
            final(self).ops_spec() == old(self).ops_spec().push(MeshOp::WriteAt(r)),
    {
        let r = MeshDataRef {
            first_vertex,
            vertex_count: vertices.len() as u32,
            first_index,
            index_count: indices.len() as u32,
        };
        self.ops.push(MeshOp::WriteAt(r));
        r
    }

    /// Records the binding of the vertex buffer.
    pub fn bind_vertices(&mut self)
        ensures
            final(self).ops_spec() == old(self).ops_spec().push(MeshOp::BindVertices),
    {
        self.ops.push(MeshOp::BindVertices);
    }

    /// Records the binding of the index buffer.
    pub fn bind_indices(&mut self)
        ensures
            final(self).ops_spec() == old(self).ops_spec().push(MeshOp::BindIndices),
    {
        self.ops.push(MeshOp::BindIndices);
    }
}

/// The backend commands one `create` records: the vertex and fragment
/// shaders always, each optional stage when its path is non-empty, and the
/// build last.
pub open spec fn create_commands(data: PipelineData) -> Seq<RenderCommand> {
    let base = seq![
        RenderCommand::SetShader(ShaderType::Vertex, data.vertex_shader),
        RenderCommand::SetShader(ShaderType::Fragment, data.fragment_shader),
    ];
    let with_tcs = if data.tcs_shader@.len() > 0 {
        base.push(RenderCommand::SetShader(ShaderType::TessellationControl, data.tcs_shader))
    } else {
        base
    };
    let with_tes = if data.tes_shader@.len() > 0 {
        with_tcs.push(
            RenderCommand::SetShader(ShaderType::TessellationEvaluation, data.tes_shader),
        )
    } else {
        with_tcs
    };
    let with_geometry = if data.geometry_shader@.len() > 0 {
        with_tes.push(RenderCommand::SetShader(ShaderType::Geometry, data.geometry_shader))
    } else {
        with_tes
    };
    with_geometry.push(RenderCommand::Build)
}

/// A render pipeline: its identity, its mesh buffers, the per-frame
/// instance bookkeeping, and the recorded backend command stream.
pub struct Pipeline<T> {
    inner: Vec<RenderCommand>,
    id: PipelineId,
    mesh: Mesh,
    vertex_count: u32,
    index_count: u32,
    instance_count: usize,
    instance_data: Vec<InstanceData<T>>,
    instance_commands: Vec<InstanceCommand>,
}

impl<T: Scalar> Pipeline<T> {
    /// The recorded backend command stream, in order.
    pub closed spec fn commands_spec(&self) -> Seq<RenderCommand> {
        self.inner@
    }

    /// The recorded mesh-buffer operations, in order.
    pub closed spec fn mesh_ops_spec(&self) -> Seq<MeshOp> {
        self.mesh.ops_spec()
    }

    /// The pipeline's identity.
    pub closed spec fn id_spec(&self) -> PipelineId {
        self.id
    }

    /// Vertices written so far this frame.
    pub closed spec fn vertex_count_spec(&self) -> u32 {
        self.vertex_count
    }

    /// Indices written so far this frame.
    pub closed spec fn index_count_spec(&self) -> u32 {
        self.index_count
    }

    /// Instances added so far this frame.
    pub closed spec fn instance_count_spec(&self) -> int {
        self.instance_count as int
    }

    /// The instance-data buffer.
    pub closed spec fn instance_data_spec(&self) -> Seq<InstanceData<T>> {
        self.instance_data@
    }

    /// The instance-command buffer.
    pub closed spec fn instance_commands_spec(&self) -> Seq<InstanceCommand> {
        self.instance_commands@
    }

    /// The per-frame bookkeeping is as it was: identity, counts and both
    /// instance buffers.
    pub open spec fn bookkeeping_unchanged(pre: &Pipeline<T>, post: &Pipeline<T>) -> bool {
        &&& post.id_spec() == pre.id_spec()
        &&& post.vertex_count_spec() == pre.vertex_count_spec()
        &&& post.index_count_spec() == pre.index_count_spec()
        &&& post.instance_count_spec() == pre.instance_count_spec()
        &&& post.instance_data_spec() == pre.instance_data_spec()
        &&& post.instance_commands_spec() == pre.instance_commands_spec()
    }

    /// Well-formed: the two instance buffers run in step, and the count of
    /// instances added this frame never exceeds what the buffers hold.
    pub open spec fn wf(&self) -> bool {
        &&& self.instance_data_spec().len() == self.instance_commands_spec().len()
        &&& 0 <= self.instance_count_spec() <= self.instance_commands_spec().len()
    }

    /// The pipeline's identity.
    pub fn id(&self) -> (id: PipelineId)
        ensures
            id == self.id_spec(),
    {
        self.id
    }

    /// Creates a pipeline on `device` against `render_pass`: fresh, empty
    /// bookkeeping, and the shader and build commands of `data` recorded —
    /// exactly [`create_commands`].
    pub fn create(
        device: &Device,
        id: PipelineId,
        data: &PipelineData,
        render_pass: &RenderPass,
    ) -> (pipeline: Pipeline<T>)
        ensures
            pipeline.wf(),
            pipeline.id_spec() == id,
            pipeline.commands_spec() == create_commands(*data),
            pipeline.mesh_ops_spec() == Seq::<MeshOp>::empty(),
            pipeline.vertex_count_spec() == 0,
            pipeline.index_count_spec() == 0,
            pipeline.instance_count_spec() == 0,
            pipeline.instance_data_spec() == Seq::<InstanceData<T>>::empty(),
            pipeline.instance_commands_spec() == Seq::<InstanceCommand>::empty(),
    {
        let _ = render_pass.get_pass();
        let mut inner: Vec<RenderCommand> = Vec::new();
        inner.push(
            RenderCommand::SetShader(ShaderType::Vertex, data.vertex_shader.clone()),
        );
        inner.push(
            RenderCommand::SetShader(ShaderType::Fragment, data.fragment_shader.clone()),
        );
        if !data.tcs_shader.as_str().is_empty() {
            inner.push(
                RenderCommand::SetShader(ShaderType::TessellationControl, data.tcs_shader.clone()),
            );
        }
        if !data.tes_shader.as_str().is_empty() {
            inner.push(
                RenderCommand::SetShader(
                    ShaderType::TessellationEvaluation,
                    data.tes_shader.clone(),
                ),
            );
        }
        if !data.geometry_shader.as_str().is_empty() {
            inner.push(
                RenderCommand::SetShader(ShaderType::Geometry, data.geometry_shader.clone()),
            );
        }
        inner.push(RenderCommand::Build);
        proof {
            assert(inner@ =~= create_commands(*data));
        }
        Pipeline {
            inner,
            id,
            mesh: Mesh::create(device),
            vertex_count: 0,
            index_count: 0,
            instance_count: 0,
            instance_data: Vec::new(),
            instance_commands: Vec::new(),
        }
    }

    /// Whether there is nothing to draw: no instance commands, or no
    /// vertices written this frame.
    pub fn is_empty(&self) -> (empty: bool)
        ensures
            empty == (self.instance_commands_spec().len() == 0 || self.vertex_count_spec() == 0),
    {
        self.instance_commands.len() == 0 || self.vertex_count == 0
    }

    /// The instance-data buffer.
    pub fn get_instance_data(&self) -> (data: &Vec<InstanceData<T>>)
        ensures
            data@ == self.instance_data_spec(),
    {
        &self.instance_data
    }

    /// The instance-command buffer.
    pub fn get_instance_commands(&self) -> (commands: &Vec<InstanceCommand>)
        ensures
            commands@ == self.instance_commands_spec(),
    {
        &self.instance_commands
    }

    /// How many instances were added this frame.
    pub fn get_instance_count(&self) -> (count: usize)
        ensures
            count == self.instance_count_spec(),
    {
        self.instance_count
    }

    /// The recorded backend command stream, in order.
    pub fn commands(&self) -> (commands: &Vec<RenderCommand>)
        ensures
            commands@ == self.commands_spec(),
    {
        &self.inner
    }

    /// The recorded mesh-buffer operations, in order.
    pub fn mesh_ops(&self) -> (ops: &Vec<MeshOp>)
        ensures
            ops@ == self.mesh_ops_spec(),
    {
        self.mesh.ops()
    }

    /// Records the release of the backend pipeline.
    pub fn destroy(&mut self)
        ensures
            final(self).commands_spec() == old(self).commands_spec().push(RenderCommand::Delete),
            final(self).wf() == old(self).wf(),
            Self::bookkeeping_unchanged(old(self), final(self)),
            final(self).mesh_ops_spec() == old(self).mesh_ops_spec(),
    {
        self.inner.push(RenderCommand::Delete);
    }

    /// Starts a new frame: the vertex, index and instance counts return to
    /// zero, while the buffers keep their capacity to be overwritten.
    pub fn prepare(&mut self)
        requires
            old(self).wf(),
        ensures
            final(self).wf(),
            final(self).vertex_count_spec() == 0,
            final(self).index_count_spec() == 0,
            final(self).instance_count_spec() == 0,
            final(self).id_spec() == old(self).id_spec(),
            final(self).commands_spec() == old(self).commands_spec(),
            final(self).mesh_ops_spec() == old(self).mesh_ops_spec(),
            final(self).instance_data_spec() == old(self).instance_data_spec(),
            final(self).instance_commands_spec() == old(self).instance_commands_spec(),
    {
        self.vertex_count = 0;
        self.index_count = 0;
        self.instance_count = 0;
    }

    /// Records the upload of the instance bookkeeping and the binding of the
    /// descriptor sets.
    pub fn begin(&mut self)
        ensures
            final(self).commands_spec() == old(self).commands_spec().push(
                RenderCommand::BindInstances(
                    old(self).instance_commands_spec().len() as usize,
                    old(self).instance_data_spec().len() as usize,
                ),
            ).push(RenderCommand::BindDescriptors),
            final(self).wf() == old(self).wf(),
            Self::bookkeeping_unchanged(old(self), final(self)),
            final(self).mesh_ops_spec() == old(self).mesh_ops_spec(),
    {
        self.inner.push(
            RenderCommand::BindInstances(self.instance_commands.len(), self.instance_data.len()),
        );
        self.inner.push(RenderCommand::BindDescriptors);
    }

    /// Records the refresh of the descriptor sets against `textures`.
    pub fn update_descriptor_sets(&mut self, textures: &[TextureAtlas])
        ensures
            final(self).commands_spec() == old(self).commands_spec().push(
                RenderCommand::UpdateDescriptorSets(textures@.len() as usize),
            ),
            final(self).wf() == old(self).wf(),
            Self::bookkeeping_unchanged(old(self), final(self)),
            final(self).mesh_ops_spec() == old(self).mesh_ops_spec(),
    {
        self.inner.push(RenderCommand::UpdateDescriptorSets(textures.len()));
    }

    /// Records the binding of the indirect-draw buffer.
    pub fn bind_indirect(&mut self)
        ensures
            final(self).commands_spec() == old(self).commands_spec().push(
                RenderCommand::BindIndirect,
            ),
            final(self).wf() == old(self).wf(),
            Self::bookkeeping_unchanged(old(self), final(self)),
            final(self).mesh_ops_spec() == old(self).mesh_ops_spec(),
    {
        self.inner.push(RenderCommand::BindIndirect);
    }

    /// Records the binding of the vertex buffer.
    pub fn bind_vertices(&mut self)
        ensures
            final(self).mesh_ops_spec() == old(self).mesh_ops_spec().push(MeshOp::BindVertices),
            final(self).commands_spec() == old(self).commands_spec(),
            final(self).wf() == old(self).wf(),
            Self::bookkeeping_unchanged(old(self), final(self)),
    {
        self.mesh.bind_vertices();
    }

    /// Records the binding of the index buffer.
    pub fn bind_indices(&mut self)
        ensures
            final(self).mesh_ops_spec() == old(self).mesh_ops_spec().push(MeshOp::BindIndices),
            final(self).commands_spec() == old(self).commands_spec(),
            final(self).wf() == old(self).wf(),
            Self::bookkeeping_unchanged(old(self), final(self)),
    {
        self.mesh.bind_indices();
    }

    /// Records the indirect draw of every instance added this frame.
    pub fn draw_indirect(&mut self)
        ensures
            final(self).commands_spec() == old(self).commands_spec().push(
                RenderCommand::DrawIndirect(old(self).instance_count_spec() as usize),
            ),
            final(self).wf() == old(self).wf(),
            Self::bookkeeping_unchanged(old(self), final(self)),
            final(self).mesh_ops_spec() == old(self).mesh_ops_spec(),
    {
        self.inner.push(RenderCommand::DrawIndirect(self.instance_count));
    }

    /// Ends the frame's recording; nothing more is recorded.
    pub fn end(&mut self)
        ensures
            *final(self) == *old(self),
    {
    }

    /// Adds one mesh instance: its geometry is written after what this frame
    /// already wrote, and the instance's command and data land in slot
    /// `instance_count`, overwriting a stale slot from an earlier frame or
    /// growing the buffers by one.
    pub fn add_mesh_instance(
        &mut self,
        mesh_instance: &MeshInstance<T>,
        diffuse_color: Vector4<T>,
        diffuse_texture_index: i32,
        diffuse_layer_index: i32,
        outline_color: Vector4<T>,
    )
        requires
            old(self).wf(),
            old(self).vertex_count_spec() + mesh_instance.data.vertices@.len() <= u32::MAX,
            old(self).index_count_spec() + mesh_instance.data.indices@.len() <= u32::MAX,
            old(self).instance_count_spec() + 1 <= usize::MAX,
        ensures
            final(self).wf(),
            final(self).vertex_count_spec() == old(self).vertex_count_spec()
                + mesh_instance.data.vertices@.len(),
            final(self).index_count_spec() == old(self).index_count_spec()
                + mesh_instance.data.indices@.len(),
            final(self).instance_count_spec() == old(self).instance_count_spec() + 1,
            final(self).mesh_ops_spec() == old(self).mesh_ops_spec().push(
                MeshOp::WriteAt(
                    MeshDataRef {
                        first_vertex: old(self).vertex_count_spec(),
                        vertex_count: mesh_instance.data.vertices@.len() as u32,
                        first_index: old(self).index_count_spec(),
                        index_count: mesh_instance.data.indices@.len() as u32,
                    },
                ),
            ),
            ({
                let slot = old(self).instance_count_spec();
                let command = InstanceCommand {
                    mesh_index: slot as usize,
                    mesh_data_ref: MeshDataRef {
                        first_vertex: old(self).vertex_count_spec(),
                        vertex_count: mesh_instance.data.vertices@.len() as u32,
                        first_index: old(self).index_count_spec(),
                        index_count: mesh_instance.data.indices@.len() as u32,
                    },
                };
                let data = InstanceData {
                    transform: mesh_instance.transform,
                    draw_area: mesh_instance.draw_area,
                    diffuse_color,
                    diffuse_texture_index,
                    diffuse_layer_index,
                    outline_color,
                };
                if slot < old(self).instance_commands_spec().len() {
                    &&& final(self).instance_commands_spec() == old(
                        self,
                    ).instance_commands_spec().update(slot, command)
                    &&& final(self).instance_data_spec() == old(self).instance_data_spec().update(
                        slot,
                        data,
                    )
                } else {
                    &&& final(self).instance_commands_spec() == old(
                        self,
                    ).instance_commands_spec().push(command)
                    &&& final(self).instance_data_spec() == old(self).instance_data_spec().push(
                        data,
                    )
                }
            }),
            final(self).commands_spec() == old(self).commands_spec(),
            final(self).id_spec() == old(self).id_spec(),
    {
        let mesh_data_ref = self.mesh.bind_at_index(
            &mesh_instance.data.vertices,
            self.vertex_count,
            &mesh_instance.data.indices,
            self.index_count,
        );

        self.vertex_count = self.vertex_count + mesh_instance.data.vertices.len() as u32;
        self.index_count = self.index_count + mesh_instance.data.indices.len() as u32;

        let command = InstanceCommand { mesh_index: self.instance_count, mesh_data_ref };
        let data = InstanceData {
            transform: mesh_instance.transform,
            draw_area: mesh_instance.draw_area,
            diffuse_color,
            diffuse_texture_index,
            diffuse_layer_index,
            outline_color,
        };
        if self.instance_count >= self.instance_commands.len() {
            self.instance_commands.push(command);
            self.instance_data.push(data);
        } else {
            let slot = self.instance_count;
            self.instance_commands[slot] = command;
            self.instance_data[slot] = data;
        }
        self.instance_count = self.instance_count + 1;
    }
}

} // verus!
