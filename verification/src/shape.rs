//! The life of a shape: made, copied, and brought up to date for the
//! renderer.

use vstd::prelude::*;
use crate::consts::{
    DEFAULT_SHAPE_BOUNDS_LENGTH_BITS, DEFAULT_SHAPE_ROTATION_BITS, DEFAULT_SHAPE_SCALE_BITS,
    ZERO_BITS,
};
use crate::shader::{clone_handle, create_shader, registered, ShaderHandle, ShaderRegistry};
use crate::state::{
    default_shape_color, BlendMode, GlobalState, Rgba, Scalar, SelectedTab, ShaderKind,
    ShapeState, Vector3, Vector4,
};
use crate::templates::Templates;
use crate::text::rewritten;

verus! {

/// What the renderer draws of one shape: where and how, and with which
/// compiled shaders.
pub struct RenderedShape {
    pub position: Vector3,
    pub rotation: Scalar,
    pub scale: Scalar,
    pub color: Rgba,
    pub bounds_length: Scalar,
    pub params: Vector4,
    pub blend_mode: BlendMode,
    pub sdf: ShaderHandle,
    pub fill: ShaderHandle,
}

impl RenderedShape {
    /// Whether the renderer draws the shape where and how the editor has it.
    pub open spec fn shows(&self, shape_state: &ShapeState) -> bool {
        &&& self.position == shape_state.position
        &&& self.rotation == shape_state.rotation
        &&& self.scale == shape_state.scale
        &&& self.color == shape_state.color
        &&& self.bounds_length == shape_state.bounds_length
        &&& self.params == shape_state.params
        &&& self.blend_mode == shape_state.blend_mode
    }

    /// Brings placement and looks up to date with the editor, and takes the
    /// freshly compiled shaders where there are any: both, or neither.
    pub fn apply(&mut self, shape_state: &ShapeState, compiled: Option<(ShaderHandle, ShaderHandle)>)
        ensures
            final(self).shows(shape_state),
            compiled matches Some(pair) ==> final(self).sdf == pair.0 && final(self).fill
                == pair.1,
            compiled is None ==> final(self).sdf == old(self).sdf && final(self).fill == old(
                self,
            ).fill,
    {
        self.position = shape_state.position;
        self.rotation = shape_state.rotation;
        self.scale = shape_state.scale;
        self.color = shape_state.color;
        self.bounds_length = shape_state.bounds_length;
        self.params = shape_state.params;
        self.blend_mode = shape_state.blend_mode;
        if let Some((sdf, fill)) = compiled {
            self.sdf = sdf;
            self.fill = fill;
        }
    }
}

/// Whether a shape state is that of a new shape: everything at its default
/// but the identifier and the two shader texts.
pub open spec fn has_default_attributes(shape_state: &ShapeState) -> bool {
    &&& shape_state.position == (Vector3 {
        x: Scalar { bits: ZERO_BITS },
        y: Scalar { bits: ZERO_BITS },
        z: Scalar { bits: ZERO_BITS },
    })
    &&& shape_state.rotation.bits == DEFAULT_SHAPE_ROTATION_BITS
    &&& shape_state.scale.bits == DEFAULT_SHAPE_SCALE_BITS
    &&& shape_state.bounds_length.bits == DEFAULT_SHAPE_BOUNDS_LENGTH_BITS
    &&& shape_state.color == default_shape_color()
    &&& shape_state.selected_shader == ShaderKind::Sdf
    &&& shape_state.params == (Vector4 {
        x: Scalar { bits: ZERO_BITS },
        y: Scalar { bits: ZERO_BITS },
        z: Scalar { bits: ZERO_BITS },
        w: Scalar { bits: ZERO_BITS },
    })
    &&& shape_state.blend_mode == BlendMode::Alpha
}

/// Compiles the two shader texts of a shape, the distance function first.
pub fn compile_both(
    global_state: &mut GlobalState,
    shaders: &mut ShaderRegistry,
    shape_state: &ShapeState,
) -> (compiled: (ShaderHandle, ShaderHandle))
    requires
        old(global_state).shader_counter() < u32::MAX - 1,
    ensures
        final(global_state).shader_counter() == old(global_state).shader_counter() + 2,
        final(global_state).same_but_shader_counter(old(global_state)),
        !registered(*old(shaders)).dom().contains(compiled.0),
        !registered(*old(shaders)).dom().contains(compiled.1),
        compiled.0 != compiled.1,
        registered(*final(shaders)) == registered(*old(shaders)).insert(
            compiled.0,
            rewritten(old(global_state).shader_counter() as nat, shape_state.sdf_code@),
        ).insert(
            compiled.1,
            rewritten(old(global_state).shader_counter() as nat + 1, shape_state.fill_code@),
        ),
{
    let sdf = create_shader(shaders, global_state, shape_state.sdf_code.as_str());
    let fill = create_shader(shaders, global_state, shape_state.fill_code.as_str());
    (sdf, fill)
}

/// Makes a new shape: a fresh identifier, every attribute at its default, the
/// shader texts from the default templates, both compiled at once. The new
/// shape is selected, with a request to scroll to its tab.
pub fn add_shape(
    templates: &Templates,
    state: &mut GlobalState,
    shaders: &mut ShaderRegistry,
) -> (made: (ShapeState, RenderedShape))
    requires
        old(state).shape_counter() < u32::MAX,
        old(state).shader_counter() < u32::MAX - 1,
    ensures
        made.0.id == old(state).shape_counter(),
        has_default_attributes(&made.0),
        made.0.sdf_code@ == templates.default_code(ShaderKind::Sdf),
        made.0.fill_code@ == templates.default_code(ShaderKind::Fill),
        templates.wf(),
        made.1.shows(&made.0),
        final(state).shape_counter() == old(state).shape_counter() + 1,
        final(state).shader_counter() == old(state).shader_counter() + 2,
        final(state).selection() == SelectedTab::Shape(made.0.id),
        final(state).scroll_request() == Some(made.0.id),
        final(state).camera() == old(state).camera(),
        final(state).background() == old(state).background(),
        !registered(*old(shaders)).dom().contains(made.1.sdf),
        !registered(*old(shaders)).dom().contains(made.1.fill),
        made.1.sdf != made.1.fill,
        registered(*final(shaders)) == registered(*old(shaders)).insert(
            made.1.sdf,
            rewritten(old(state).shader_counter() as nat, made.0.sdf_code@),
        ).insert(made.1.fill, rewritten(old(state).shader_counter() as nat + 1, made.0.fill_code@)),
{
    let zero = Scalar { bits: ZERO_BITS };
    let sdf_code = match templates.default_template(ShaderKind::Sdf) {
        Some(template) => template.code.clone(),
        None => String::new(),
    };
    let fill_code = match templates.default_template(ShaderKind::Fill) {
        Some(template) => template.code.clone(),
        None => String::new(),
    };
    let shape_state = ShapeState {
        id: state.create_shape(),
        position: Vector3 { x: zero, y: zero, z: zero },
        rotation: Scalar { bits: DEFAULT_SHAPE_ROTATION_BITS },
        scale: Scalar { bits: DEFAULT_SHAPE_SCALE_BITS },
        bounds_length: Scalar { bits: DEFAULT_SHAPE_BOUNDS_LENGTH_BITS },
        color: Rgba { r: 200, g: 100, b: 100, a: 255 },
        selected_shader: ShaderKind::Sdf,
        sdf_code,
        fill_code,
        params: Vector4 { x: zero, y: zero, z: zero, w: zero },
        blend_mode: BlendMode::Alpha,
    };
    let (sdf, fill) = compile_both(state, shaders, &shape_state);
    let shape = RenderedShape {
        position: shape_state.position,
        rotation: shape_state.rotation,
        scale: shape_state.scale,
        color: shape_state.color,
        bounds_length: shape_state.bounds_length,
        params: shape_state.params,
        blend_mode: shape_state.blend_mode,
        sdf,
        fill,
    };
    (shape_state, shape)
}

/// Copies a shape: the copy has a fresh identifier and is otherwise the
/// shape it was made from, shader texts and compiled shaders included. Nothing is
/// compiled. The copy is selected, with a request to scroll to its tab.
pub fn clone_shape(state: &mut GlobalState, shape: &RenderedShape, shape_state: &ShapeState) -> (copy:
    (ShapeState, RenderedShape))
    requires
        old(state).shape_counter() < u32::MAX,
    ensures
        copy.0 == (ShapeState { id: old(state).shape_counter(), ..*shape_state }),
        copy.1 == *shape,
        final(state).shape_counter() == old(state).shape_counter() + 1,
        final(state).shader_counter() == old(state).shader_counter(),
        final(state).selection() == SelectedTab::Shape(copy.0.id),
        final(state).scroll_request() == Some(copy.0.id),
        final(state).camera() == old(state).camera(),
        final(state).background() == old(state).background(),
{
    let copied_state = ShapeState {
        id: state.create_shape(),
        position: shape_state.position,
        rotation: shape_state.rotation,
        scale: shape_state.scale,
        color: shape_state.color,
        selected_shader: shape_state.selected_shader,
        sdf_code: shape_state.sdf_code.clone(),
        fill_code: shape_state.fill_code.clone(),
        bounds_length: shape_state.bounds_length,
        params: shape_state.params,
        blend_mode: shape_state.blend_mode,
    };
    let copied_shape = RenderedShape {
        position: shape.position,
        rotation: shape.rotation,
        scale: shape.scale,
        color: shape.color,
        bounds_length: shape.bounds_length,
        params: shape.params,
        blend_mode: shape.blend_mode,
        sdf: clone_handle(&shape.sdf),
        fill: clone_handle(&shape.fill),
    };
    (copied_state, copied_shape)
}

/// Brings what the renderer draws up to date with the editor. Placement and
/// looks are always taken over. The shaders are compiled only on demand, and
/// then both of them; otherwise both handles stay, and neither the counters
/// nor the registry change.
pub fn update_shape(
    global_state: &mut GlobalState,
    shaders: &mut ShaderRegistry,
    shape: &mut RenderedShape,
    shape_state: &ShapeState,
    compile_shader: bool,
)
    requires
        compile_shader ==> old(global_state).shader_counter() < u32::MAX - 1,
    ensures
        final(shape).shows(shape_state),
        final(global_state).same_but_shader_counter(old(global_state)),
        !compile_shader ==> {
            &&& final(shape).sdf == old(shape).sdf
            &&& final(shape).fill == old(shape).fill
            &&& final(global_state).shader_counter() == old(global_state).shader_counter()
            &&& registered(*final(shaders)) == registered(*old(shaders))
        },
        compile_shader ==> {
            &&& !registered(*old(shaders)).dom().contains(final(shape).sdf)
            &&& !registered(*old(shaders)).dom().contains(final(shape).fill)
            &&& final(shape).sdf != final(shape).fill
            &&& registered(*old(shaders)).dom().contains(old(shape).sdf) ==> final(shape).sdf
                != old(shape).sdf
            &&& registered(*old(shaders)).dom().contains(old(shape).fill) ==> final(shape).fill
                != old(shape).fill
            &&& final(global_state).shader_counter() == old(global_state).shader_counter() + 2
            &&& registered(*final(shaders)) == registered(*old(shaders)).insert(
                final(shape).sdf,
                rewritten(old(global_state).shader_counter() as nat, shape_state.sdf_code@),
            ).insert(
                final(shape).fill,
                rewritten(old(global_state).shader_counter() as nat + 1, shape_state.fill_code@),
            )
        },
{
    let compiled = if compile_shader {
        Some(compile_both(global_state, shaders, shape_state))
    } else {
        None
    };
    shape.apply(shape_state, compiled);
}

} // verus!
