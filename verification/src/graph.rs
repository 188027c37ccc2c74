//! The nodes that brush graphs are built from: each node's identifier, its
//! input and output slots, and the WGSL code that it generates from the
//! expressions bound to its slots.

use vstd::prelude::*;

verus! {

/// The WGSL type of a slot.
#[derive(Clone, Copy, Debug, PartialEq, Eq, Structural)]
pub enum SlotType {
    F32,
    I32,
    Vec2F,
    Color,
    Texture,
    Rect,
}

/// An input or output slot of a node: its name and type.
pub struct GraphSlot {
    pub name: String,
    pub ty: SlotType,
}

/// The view of a slot list: each slot's name and type.
pub open spec fn slots_view(slots: Seq<GraphSlot>) -> Seq<(Seq<char>, SlotType)> {
    slots.map_values(|s: GraphSlot| (s.name@, s.ty))
}

/// A slot named `name` of type `ty`.
fn slot(name: &str, ty: SlotType) -> (s: GraphSlot)
    ensures
        s.name@ == name@,
        s.ty == ty,
{
    GraphSlot { name: String::from_str(name), ty }
}

/// Why a node could not generate its code.
#[derive(Clone, Copy, Debug, PartialEq, Eq, Structural)]
pub enum CodeGenError {
    /// No expression is bound to the input slot with this index.
    MissingInput(usize),
    /// No variable is bound to the output slot with this index.
    MissingOutput(usize),
}

/// What a node generates its code from: the WGSL expressions bound to its
/// input slots, the variable names bound to its output slots, and a fresh
/// identifier that the node may declare for itself.
pub struct CodeGenContext {
    pub inputs: Vec<String>,
    pub outputs: Vec<String>,
    pub fresh_ident: String,
}

/// The error of fetching the first `need_in` inputs and the first `need_out`
/// outputs, inputs first or outputs first; `None` when all are bound.
pub open spec fn fetch_error(
    ctx: CodeGenContext,
    need_in: nat,
    need_out: nat,
    inputs_first: bool,
) -> Option<CodeGenError> {
    let n_in = ctx.inputs@.len();
    let n_out = ctx.outputs@.len();
    if inputs_first {
        if n_in < need_in {
            Some(CodeGenError::MissingInput(n_in as usize))
        } else if n_out < need_out {
            Some(CodeGenError::MissingOutput(n_out as usize))
        } else {
            None
        }
    } else {
        if n_out < need_out {
            Some(CodeGenError::MissingOutput(n_out as usize))
        } else if n_in < need_in {
            Some(CodeGenError::MissingInput(n_in as usize))
        } else {
            None
        }
    }
}

/// The text of input `i` of the context.
pub open spec fn input(ctx: CodeGenContext, i: int) -> Seq<char> {
    ctx.inputs@[i]@
}

/// The text of output `i` of the context.
pub open spec fn output(ctx: CodeGenContext, i: int) -> Seq<char> {
    ctx.outputs@[i]@
}

/// The result of generating code that needs the given slots, where
/// `code` is what the node writes when they are all bound.
pub open spec fn code_result(
    ctx: CodeGenContext,
    need_in: nat,
    need_out: nat,
    inputs_first: bool,
    code: Seq<char>,
) -> Result<Seq<char>, CodeGenError> {
    match fetch_error(ctx, need_in, need_out, inputs_first) {
        Some(e) => Err(e),
        None => Ok(code),
    }
}

/// The view of a code generation result.
pub open spec fn result_view(r: Result<String, CodeGenError>) -> Result<Seq<char>, CodeGenError> {
    match r {
        Ok(s) => Ok(s@),
        Err(e) => Err(e),
    }
}

/// Checks that the slots the node reads are bound, in the order it reads them.
fn check_slots(ctx: &CodeGenContext, need_in: usize, need_out: usize, inputs_first: bool) -> (r:
    Option<CodeGenError>)
    ensures
        r == fetch_error(*ctx, need_in as nat, need_out as nat, inputs_first),
{
    let n_in = ctx.inputs.len();
    let n_out = ctx.outputs.len();
    if inputs_first {
        if n_in < need_in {
            Some(CodeGenError::MissingInput(n_in))
        } else if n_out < need_out {
            Some(CodeGenError::MissingOutput(n_out))
        } else {
            None
        }
    } else {
        if n_out < need_out {
            Some(CodeGenError::MissingOutput(n_out))
        } else if n_in < need_in {
            Some(CodeGenError::MissingInput(n_in))
        } else {
            None
        }
    }
}

/// Graph data that carries the pen input of the current dab.
pub trait GraphDataWithPenInput: Sized {
    spec fn spec_pen_input_field() -> Seq<char>;

    /// The WGSL expression of the pen input.
    fn pen_input_field() -> (s: String)
        ensures
            s@ == Self::spec_pen_input_field(),
    ;
}

/// Graph data that carries the pen input where the stroke began.
pub trait GraphDataWithInitialPenInput: Sized {
    spec fn spec_initial_pen_input_field() -> Seq<char>;

    /// The WGSL expression of the initial pen input.
    fn initial_pen_input_field() -> (s: String)
        ensures
            s@ == Self::spec_initial_pen_input_field(),
    ;
}

/// Graph data that carries the canvas resources (foreground and background
/// colors).
pub trait GraphDataWithBrushResource: Sized {
    spec fn spec_canvas_resources_field() -> Seq<char>;

    /// The WGSL expression of the canvas resources.
    fn canvas_resources_field() -> (s: String)
        ensures
            s@ == Self::spec_canvas_resources_field(),
    ;
}

/// The data of a brush's main graph, run for every dab.
pub struct BrushMainGraphData;

/// The data of a brush's spacing graph.
pub struct BrushRequiredSpacingGraphData;

/// The data of a brush's post-processing graph, run once per stroke.
pub struct BrushStrokePostprocessGraphData;

impl GraphDataWithPenInput for BrushMainGraphData {
    open spec fn spec_pen_input_field() -> Seq<char> {
        "graph_input"@
    }

    fn pen_input_field() -> (s: String) {
        String::from_str("graph_input")
    }
}

impl GraphDataWithPenInput for BrushRequiredSpacingGraphData {
    open spec fn spec_pen_input_field() -> Seq<char> {
        "graph_input"@
    }

    fn pen_input_field() -> (s: String) {
        String::from_str("graph_input")
    }
}

impl GraphDataWithInitialPenInput for BrushMainGraphData {
    open spec fn spec_initial_pen_input_field() -> Seq<char> {
        "initial_pen_input"@
    }

    fn initial_pen_input_field() -> (s: String) {
        String::from_str("initial_pen_input")
    }
}

impl GraphDataWithInitialPenInput for BrushRequiredSpacingGraphData {
    open spec fn spec_initial_pen_input_field() -> Seq<char> {
        "initial_pen_input"@
    }

    fn initial_pen_input_field() -> (s: String) {
        String::from_str("initial_pen_input")
    }
}

impl GraphDataWithBrushResource for BrushRequiredSpacingGraphData {
    open spec fn spec_canvas_resources_field() -> Seq<char> {
        "canvas_resources"@
    }

    fn canvas_resources_field() -> (s: String) {
        String::from_str("canvas_resources")
    }
}

impl GraphDataWithBrushResource for BrushMainGraphData {
    open spec fn spec_canvas_resources_field() -> Seq<char> {
        "canvas_resources"@
    }

    fn canvas_resources_field() -> (s: String) {
        String::from_str("canvas_resources")
    }
}

impl GraphDataWithBrushResource for BrushStrokePostprocessGraphData {
    open spec fn spec_canvas_resources_field() -> Seq<char> {
        "canvas_resources"@
    }

    fn canvas_resources_field() -> (s: String) {
        String::from_str("canvas_resources")
    }
}

/// How the paste-texture node samples outside the texture.
#[derive(Clone, Copy, Debug, PartialEq, Eq, Structural)]
pub enum PasteTextureMode {
    Clamp,
    Wrap,
}

impl PasteTextureMode {
    /// Both modes, in the order the node offers them.
    pub fn all() -> (r: Vec<PasteTextureMode>)
        ensures
            r@ == seq![PasteTextureMode::Clamp, PasteTextureMode::Wrap],
    {
        let r = vec![PasteTextureMode::Clamp, PasteTextureMode::Wrap];
        assert(r@ =~= seq![PasteTextureMode::Clamp, PasteTextureMode::Wrap]);
        r
    }

    /// The mode's name in snake case, as it is displayed and stored.
    pub fn name(&self) -> (s: &'static str)
        ensures
            s@ == match self {
                PasteTextureMode::Clamp => "clamp"@,
                PasteTextureMode::Wrap => "wrap"@,
            },
    {
        match self {
            PasteTextureMode::Clamp => "clamp",
            PasteTextureMode::Wrap => "wrap",
        }
    }

    /// The WGSL function that samples the texture in this mode.
    pub open spec fn spec_sample_function(self) -> Seq<char> {
        match self {
            PasteTextureMode::Clamp => "sample_transformed_local_texture_clamp"@,
            PasteTextureMode::Wrap => "sample_transformed_local_texture_wrap"@,
        }
    }

    pub fn sample_function(&self) -> (s: &'static str)
        ensures
            s@ == self.spec_sample_function(),
    {
        match self {
            PasteTextureMode::Clamp => "sample_transformed_local_texture_clamp",
            PasteTextureMode::Wrap => "sample_transformed_local_texture_wrap",
        }
    }
}

/// The state of a paste-texture node.
pub struct PasteTextureNodeState {
    pub mode: PasteTextureMode,
}

impl PasteTextureNodeState {
    /// A new node wraps the texture.
    pub fn default_state() -> (s: PasteTextureNodeState)
        ensures
            s.mode == PasteTextureMode::Wrap,
    {
        PasteTextureNodeState { mode: PasteTextureMode::Wrap }
    }
}

/// The state of a node that blends with a blend mode, held as the WGSL
/// function of that mode (under `image::blend_modes`).
pub struct BlendModeNodeState {
    pub blend_function: String,
}


/// The code that `PenPositionNode` writes.
pub open spec fn pen_position_node_code(o0: Seq<char>, field: Seq<char>) -> Seq<char> {
    "let "@ + o0 + " = "@ + field + ".position;"@
}

/// The pen position of the current dab.
#[derive(Clone, Copy, Debug, Default)]
pub struct PenPositionNode;

impl PenPositionNode {
    /// The node's identifier.
    pub fn id(&self) -> (s: &'static str)
        ensures
            s@ == "pen_position_node"@,
    {
        "pen_position_node"
    }

    /// The node's input slots (none).
    pub fn create_inputs(&self) -> (r: Vec<GraphSlot>)
        ensures
            r@.len() == 0,
    {
        Vec::new()
    }

    /// The node's output slots.
    pub fn create_outputs(&self) -> (r: Vec<GraphSlot>)
        ensures
            slots_view(r@) == seq![("position"@, SlotType::Vec2F)],
    {
        let r = vec![slot("position", SlotType::Vec2F)];
        assert(slots_view(r@) =~= seq![("position"@, SlotType::Vec2F)]);
        r
    }

    /// The WGSL code of the node: `let {o0} = {p}.position;`.
    pub fn generate_code<D: GraphDataWithPenInput>(&self, ctx: &CodeGenContext) -> (r: Result<String, CodeGenError>)
        ensures
            result_view(r) == code_result(*ctx, 0, 1, false, pen_position_node_code(output(*ctx, 0), D::spec_pen_input_field())),
    {
        if let Some(e) = check_slots(ctx, 0, 1, false) {
            return Err(e);
        }
        let field = D::pen_input_field();
        Ok(String::from_str("let ").concat(ctx.outputs[0].as_str()).concat(" = ").concat(field.as_str()).concat(".position;"))
    }
}

/// The code that `DrawDirectionNode` writes.
pub open spec fn draw_direction_node_code(o0: Seq<char>, o1: Seq<char>, field: Seq<char>) -> Seq<char> {
    "let "@ + o0 + " = "@ + field + ".draw_direction_angle;\nlet "@ + o1 + " = "@ + field + ".draw_direction_vec;\n"@
}

/// The direction of the stroke at the current dab.
#[derive(Clone, Copy, Debug, Default)]
pub struct DrawDirectionNode;

impl DrawDirectionNode {
    /// The node's identifier.
    pub fn id(&self) -> (s: &'static str)
        ensures
            s@ == "draw_direction_node"@,
    {
        "draw_direction_node"
    }

    /// The node's input slots (none).
    pub fn create_inputs(&self) -> (r: Vec<GraphSlot>)
        ensures
            r@.len() == 0,
    {
        Vec::new()
    }

    /// The node's output slots.
    pub fn create_outputs(&self) -> (r: Vec<GraphSlot>)
        ensures
            slots_view(r@) == seq![("angle"@, SlotType::F32), ("direction"@, SlotType::Vec2F)],
    {
        let r = vec![slot("angle", SlotType::F32), slot("direction", SlotType::Vec2F)];
        assert(slots_view(r@) =~= seq![("angle"@, SlotType::F32), ("direction"@, SlotType::Vec2F)]);
        r
    }

    /// The WGSL code of the node: `let {o0} = {p}.draw_direction_angle;\nlet {o1} = {p}.draw_direction_vec;\n`.
    pub fn generate_code<D: GraphDataWithPenInput>(&self, ctx: &CodeGenContext) -> (r: Result<String, CodeGenError>)
        ensures
            result_view(r) == code_result(*ctx, 0, 2, false, draw_direction_node_code(output(*ctx, 0), output(*ctx, 1), D::spec_pen_input_field())),
    {
        if let Some(e) = check_slots(ctx, 0, 2, false) {
            return Err(e);
        }
        let field = D::pen_input_field();
        Ok(String::from_str("let ").concat(ctx.outputs[0].as_str()).concat(" = ").concat(field.as_str()).concat(".draw_direction_angle;\nlet ").concat(ctx.outputs[1].as_str()).concat(" = ").concat(field.as_str()).concat(".draw_direction_vec;\n"))
    }
}

/// The code that `PenPressureNode` writes.
pub open spec fn pen_pressure_node_code(o0: Seq<char>, field: Seq<char>) -> Seq<char> {
    "let "@ + o0 + " = "@ + field + ".pressure;\n"@
}

/// The pen pressure of the current dab.
#[derive(Clone, Copy, Debug, Default)]
pub struct PenPressureNode;

impl PenPressureNode {
    /// The node's identifier.
    pub fn id(&self) -> (s: &'static str)
        ensures
            s@ == "pen_pressure_node"@,
    {
        "pen_pressure_node"
    }

    /// The node's input slots (none).
    pub fn create_inputs(&self) -> (r: Vec<GraphSlot>)
        ensures
            r@.len() == 0,
    {
        Vec::new()
    }

    /// The node's output slots.
    pub fn create_outputs(&self) -> (r: Vec<GraphSlot>)
        ensures
            slots_view(r@) == seq![("pressure"@, SlotType::F32)],
    {
        let r = vec![slot("pressure", SlotType::F32)];
        assert(slots_view(r@) =~= seq![("pressure"@, SlotType::F32)]);
        r
    }

    /// The WGSL code of the node: `let {o0} = {p}.pressure;\n`.
    pub fn generate_code<D: GraphDataWithPenInput>(&self, ctx: &CodeGenContext) -> (r: Result<String, CodeGenError>)
        ensures
            result_view(r) == code_result(*ctx, 0, 1, false, pen_pressure_node_code(output(*ctx, 0), D::spec_pen_input_field())),
    {
        if let Some(e) = check_slots(ctx, 0, 1, false) {
            return Err(e);
        }
        let field = D::pen_input_field();
        Ok(String::from_str("let ").concat(ctx.outputs[0].as_str()).concat(" = ").concat(field.as_str()).concat(".pressure;\n"))
    }
}

/// The code that `PenTiltNode` writes.
pub open spec fn pen_tilt_node_code(o0: Seq<char>, field: Seq<char>) -> Seq<char> {
    "let "@ + o0 + " = "@ + field + ".tilt;\n"@
}

/// The pen tilt of the current dab.
#[derive(Clone, Copy, Debug, Default)]
pub struct PenTiltNode;

impl PenTiltNode {
    /// The node's identifier.
    pub fn id(&self) -> (s: &'static str)
        ensures
            s@ == "pen_tilt_node"@,
    {
        "pen_tilt_node"
    }

    /// The node's input slots (none).
    pub fn create_inputs(&self) -> (r: Vec<GraphSlot>)
        ensures
            r@.len() == 0,
    {
        Vec::new()
    }

    /// The node's output slots.
    pub fn create_outputs(&self) -> (r: Vec<GraphSlot>)
        ensures
            slots_view(r@) == seq![("tilt"@, SlotType::Vec2F)],
    {
        let r = vec![slot("tilt", SlotType::Vec2F)];
        assert(slots_view(r@) =~= seq![("tilt"@, SlotType::Vec2F)]);
        r
    }

    /// The WGSL code of the node: `let {o0} = {p}.tilt;\n`.
    pub fn generate_code<D: GraphDataWithPenInput>(&self, ctx: &CodeGenContext) -> (r: Result<String, CodeGenError>)
        ensures
            result_view(r) == code_result(*ctx, 0, 1, false, pen_tilt_node_code(output(*ctx, 0), D::spec_pen_input_field())),
    {
        if let Some(e) = check_slots(ctx, 0, 1, false) {
            return Err(e);
        }
        let field = D::pen_input_field();
        Ok(String::from_str("let ").concat(ctx.outputs[0].as_str()).concat(" = ").concat(field.as_str()).concat(".tilt;\n"))
    }
}

/// The code that `PenAngleNode` writes.
pub open spec fn pen_angle_node_code(o0: Seq<char>, o1: Seq<char>, field: Seq<char>) -> Seq<char> {
    "let "@ + o0 + " = "@ + field + ".angle.x;\nlet "@ + o1 + " = "@ + field + ".angle.y;\n"@
}

/// The pen altitude and azimuth of the current dab.
#[derive(Clone, Copy, Debug, Default)]
pub struct PenAngleNode;

impl PenAngleNode {
    /// The node's identifier.
    pub fn id(&self) -> (s: &'static str)
        ensures
            s@ == "pen_angle_node"@,
    {
        "pen_angle_node"
    }

    /// The node's input slots (none).
    pub fn create_inputs(&self) -> (r: Vec<GraphSlot>)
        ensures
            r@.len() == 0,
    {
        Vec::new()
    }

    /// The node's output slots.
    pub fn create_outputs(&self) -> (r: Vec<GraphSlot>)
        ensures
            slots_view(r@) == seq![("altitude"@, SlotType::F32), ("azimuth"@, SlotType::F32)],
    {
        let r = vec![slot("altitude", SlotType::F32), slot("azimuth", SlotType::F32)];
        assert(slots_view(r@) =~= seq![("altitude"@, SlotType::F32), ("azimuth"@, SlotType::F32)]);
        r
    }

    /// The WGSL code of the node: `let {o0} = {p}.angle.x;\nlet {o1} = {p}.angle.y;\n`.
    pub fn generate_code<D: GraphDataWithPenInput>(&self, ctx: &CodeGenContext) -> (r: Result<String, CodeGenError>)
        ensures
            result_view(r) == code_result(*ctx, 0, 2, false, pen_angle_node_code(output(*ctx, 0), output(*ctx, 1), D::spec_pen_input_field())),
    {
        if let Some(e) = check_slots(ctx, 0, 2, false) {
            return Err(e);
        }
        let field = D::pen_input_field();
        Ok(String::from_str("let ").concat(ctx.outputs[0].as_str()).concat(" = ").concat(field.as_str()).concat(".angle.x;\nlet ").concat(ctx.outputs[1].as_str()).concat(" = ").concat(field.as_str()).concat(".angle.y;\n"))
    }
}

/// The code that `DabIndexNode` writes.
pub open spec fn dab_index_node_code(o0: Seq<char>, field: Seq<char>) -> Seq<char> {
    "let "@ + o0 + " = i32("@ + field + ".dab_index);"@
}

/// The index of the current dab in the stroke.
#[derive(Clone, Copy, Debug, Default)]
pub struct DabIndexNode;

impl DabIndexNode {
    /// The node's identifier.
    pub fn id(&self) -> (s: &'static str)
        ensures
            s@ == "dab_index_node"@,
    {
        "dab_index_node"
    }

    /// The node's input slots (none).
    pub fn create_inputs(&self) -> (r: Vec<GraphSlot>)
        ensures
            r@.len() == 0,
    {
        Vec::new()
    }

    /// The node's output slots.
    pub fn create_outputs(&self) -> (r: Vec<GraphSlot>)
        ensures
            slots_view(r@) == seq![("dab_index"@, SlotType::I32)],
    {
        let r = vec![slot("dab_index", SlotType::I32)];
        assert(slots_view(r@) =~= seq![("dab_index"@, SlotType::I32)]);
        r
    }

    /// The WGSL code of the node: `let {o0} = i32({p}.dab_index);`.
    pub fn generate_code<D: GraphDataWithPenInput>(&self, ctx: &CodeGenContext) -> (r: Result<String, CodeGenError>)
        ensures
            result_view(r) == code_result(*ctx, 0, 1, false, dab_index_node_code(output(*ctx, 0), D::spec_pen_input_field())),
    {
        if let Some(e) = check_slots(ctx, 0, 1, false) {
            return Err(e);
        }
        let field = D::pen_input_field();
        Ok(String::from_str("let ").concat(ctx.outputs[0].as_str()).concat(" = i32(").concat(field.as_str()).concat(".dab_index);"))
    }
}

/// The code that `StrokeDistanceNode` writes.
pub open spec fn stroke_distance_node_code(o0: Seq<char>, field: Seq<char>) -> Seq<char> {
    "let "@ + o0 + " = "@ + field + ".stroke_distance;"@
}

/// The distance travelled along the stroke.
#[derive(Clone, Copy, Debug, Default)]
pub struct StrokeDistanceNode;

impl StrokeDistanceNode {
    /// The node's identifier.
    pub fn id(&self) -> (s: &'static str)
        ensures
            s@ == "stroke_distance_node"@,
    {
        "stroke_distance_node"
    }

    /// The node's input slots (none).
    pub fn create_inputs(&self) -> (r: Vec<GraphSlot>)
        ensures
            r@.len() == 0,
    {
        Vec::new()
    }

    /// The node's output slots.
    pub fn create_outputs(&self) -> (r: Vec<GraphSlot>)
        ensures
            slots_view(r@) == seq![("stroke_distance"@, SlotType::F32)],
    {
        let r = vec![slot("stroke_distance", SlotType::F32)];
        assert(slots_view(r@) =~= seq![("stroke_distance"@, SlotType::F32)]);
        r
    }

    /// The WGSL code of the node: `let {o0} = {p}.stroke_distance;`.
    pub fn generate_code<D: GraphDataWithPenInput>(&self, ctx: &CodeGenContext) -> (r: Result<String, CodeGenError>)
        ensures
            result_view(r) == code_result(*ctx, 0, 1, false, stroke_distance_node_code(output(*ctx, 0), D::spec_pen_input_field())),
    {
        if let Some(e) = check_slots(ctx, 0, 1, false) {
            return Err(e);
        }
        let field = D::pen_input_field();
        Ok(String::from_str("let ").concat(ctx.outputs[0].as_str()).concat(" = ").concat(field.as_str()).concat(".stroke_distance;"))
    }
}

/// The code that `InitialPenPositionNode` writes.
pub open spec fn initial_pen_position_node_code(o0: Seq<char>, field: Seq<char>) -> Seq<char> {
    "let "@ + o0 + " = "@ + field + ".position;"@
}

/// The pen position where the stroke began.
#[derive(Clone, Copy, Debug, Default)]
pub struct InitialPenPositionNode;

impl InitialPenPositionNode {
    /// The node's identifier.
    pub fn id(&self) -> (s: &'static str)
        ensures
            s@ == "initial_pen_position_node"@,
    {
        "initial_pen_position_node"
    }

    /// The node's input slots (none).
    pub fn create_inputs(&self) -> (r: Vec<GraphSlot>)
        ensures
            r@.len() == 0,
    {
        Vec::new()
    }

    /// The node's output slots.
    pub fn create_outputs(&self) -> (r: Vec<GraphSlot>)
        ensures
            slots_view(r@) == seq![("position"@, SlotType::Vec2F)],
    {
        let r = vec![slot("position", SlotType::Vec2F)];
        assert(slots_view(r@) =~= seq![("position"@, SlotType::Vec2F)]);
        r
    }

    /// The WGSL code of the node: `let {o0} = {p}.position;`.
    pub fn generate_code<D: GraphDataWithInitialPenInput>(&self, ctx: &CodeGenContext) -> (r: Result<String, CodeGenError>)
        ensures
            result_view(r) == code_result(*ctx, 0, 1, false, initial_pen_position_node_code(output(*ctx, 0), D::spec_initial_pen_input_field())),
    {
        if let Some(e) = check_slots(ctx, 0, 1, false) {
            return Err(e);
        }
        let field = D::initial_pen_input_field();
        Ok(String::from_str("let ").concat(ctx.outputs[0].as_str()).concat(" = ").concat(field.as_str()).concat(".position;"))
    }
}

/// The code that `InitialDrawDirectionNode` writes.
pub open spec fn initial_draw_direction_node_code(o0: Seq<char>, o1: Seq<char>, field: Seq<char>) -> Seq<char> {
    "let "@ + o0 + " = "@ + field + ".draw_direction_angle;\nlet "@ + o1 + " = "@ + field + ".draw_direction_vec;\n"@
}

/// The stroke direction where the stroke began.
#[derive(Clone, Copy, Debug, Default)]
pub struct InitialDrawDirectionNode;

impl InitialDrawDirectionNode {
    /// The node's identifier.
    pub fn id(&self) -> (s: &'static str)
        ensures
            s@ == "initial_draw_direction_node"@,
    {
        "initial_draw_direction_node"
    }

    /// The node's input slots (none).
    pub fn create_inputs(&self) -> (r: Vec<GraphSlot>)
        ensures
            r@.len() == 0,
    {
        Vec::new()
    }

    /// The node's output slots.
    pub fn create_outputs(&self) -> (r: Vec<GraphSlot>)
        ensures
            slots_view(r@) == seq![("angle"@, SlotType::F32), ("direction"@, SlotType::Vec2F)],
    {
        let r = vec![slot("angle", SlotType::F32), slot("direction", SlotType::Vec2F)];
        assert(slots_view(r@) =~= seq![("angle"@, SlotType::F32), ("direction"@, SlotType::Vec2F)]);
        r
    }

    /// The WGSL code of the node: `let {o0} = {p}.draw_direction_angle;\nlet {o1} = {p}.draw_direction_vec;\n`.
    pub fn generate_code<D: GraphDataWithInitialPenInput>(&self, ctx: &CodeGenContext) -> (r: Result<String, CodeGenError>)
        ensures
            result_view(r) == code_result(*ctx, 0, 2, false, initial_draw_direction_node_code(output(*ctx, 0), output(*ctx, 1), D::spec_initial_pen_input_field())),
    {
        if let Some(e) = check_slots(ctx, 0, 2, false) {
            return Err(e);
        }
        let field = D::initial_pen_input_field();
        Ok(String::from_str("let ").concat(ctx.outputs[0].as_str()).concat(" = ").concat(field.as_str()).concat(".draw_direction_angle;\nlet ").concat(ctx.outputs[1].as_str()).concat(" = ").concat(field.as_str()).concat(".draw_direction_vec;\n"))
    }
}

/// The code that `InitialPenPressureNode` writes.
pub open spec fn initial_pen_pressure_node_code(o0: Seq<char>, field: Seq<char>) -> Seq<char> {
    "let "@ + o0 + " = "@ + field + ".pressure;\n"@
}

/// The pen pressure where the stroke began.
#[derive(Clone, Copy, Debug, Default)]
pub struct InitialPenPressureNode;

impl InitialPenPressureNode {
    /// The node's identifier.
    pub fn id(&self) -> (s: &'static str)
        ensures
            s@ == "initial_pen_pressure_node"@,
    {
        "initial_pen_pressure_node"
    }

    /// The node's input slots (none).
    pub fn create_inputs(&self) -> (r: Vec<GraphSlot>)
        ensures
            r@.len() == 0,
    {
        Vec::new()
    }

    /// The node's output slots.
    pub fn create_outputs(&self) -> (r: Vec<GraphSlot>)
        ensures
            slots_view(r@) == seq![("pressure"@, SlotType::F32)],
    {
        let r = vec![slot("pressure", SlotType::F32)];
        assert(slots_view(r@) =~= seq![("pressure"@, SlotType::F32)]);
        r
    }

    /// The WGSL code of the node: `let {o0} = {p}.pressure;\n`.
    pub fn generate_code<D: GraphDataWithInitialPenInput>(&self, ctx: &CodeGenContext) -> (r: Result<String, CodeGenError>)
        ensures
            result_view(r) == code_result(*ctx, 0, 1, false, initial_pen_pressure_node_code(output(*ctx, 0), D::spec_initial_pen_input_field())),
    {
        if let Some(e) = check_slots(ctx, 0, 1, false) {
            return Err(e);
        }
        let field = D::initial_pen_input_field();
        Ok(String::from_str("let ").concat(ctx.outputs[0].as_str()).concat(" = ").concat(field.as_str()).concat(".pressure;\n"))
    }
}

/// The code that `InitialPenTiltNode` writes.
pub open spec fn initial_pen_tilt_node_code(o0: Seq<char>, field: Seq<char>) -> Seq<char> {
    "let "@ + o0 + " = "@ + field + ".tilt;\n"@
}

/// The pen tilt where the stroke began.
#[derive(Clone, Copy, Debug, Default)]
pub struct InitialPenTiltNode;

impl InitialPenTiltNode {
    /// The node's identifier.
    pub fn id(&self) -> (s: &'static str)
        ensures
            s@ == "initial_pen_tilt_node"@,
    {
        "initial_pen_tilt_node"
    }

    /// The node's input slots (none).
    pub fn create_inputs(&self) -> (r: Vec<GraphSlot>)
        ensures
            r@.len() == 0,
    {
        Vec::new()
    }

    /// The node's output slots.
    pub fn create_outputs(&self) -> (r: Vec<GraphSlot>)
        ensures
            slots_view(r@) == seq![("tilt"@, SlotType::Vec2F)],
    {
        let r = vec![slot("tilt", SlotType::Vec2F)];
        assert(slots_view(r@) =~= seq![("tilt"@, SlotType::Vec2F)]);
        r
    }

    /// The WGSL code of the node: `let {o0} = {p}.tilt;\n`.
    pub fn generate_code<D: GraphDataWithInitialPenInput>(&self, ctx: &CodeGenContext) -> (r: Result<String, CodeGenError>)
        ensures
            result_view(r) == code_result(*ctx, 0, 1, false, initial_pen_tilt_node_code(output(*ctx, 0), D::spec_initial_pen_input_field())),
    {
        if let Some(e) = check_slots(ctx, 0, 1, false) {
            return Err(e);
        }
        let field = D::initial_pen_input_field();
        Ok(String::from_str("let ").concat(ctx.outputs[0].as_str()).concat(" = ").concat(field.as_str()).concat(".tilt;\n"))
    }
}

/// The code that `InitialPenAngleNode` writes.
pub open spec fn initial_pen_angle_node_code(o0: Seq<char>, o1: Seq<char>, field: Seq<char>) -> Seq<char> {
    "let "@ + o0 + " = "@ + field + ".angle.x;\nlet "@ + o1 + " = "@ + field + ".angle.y;\n"@
}

/// The pen altitude and azimuth where the stroke began.
#[derive(Clone, Copy, Debug, Default)]
pub struct InitialPenAngleNode;

impl InitialPenAngleNode {
    /// The node's identifier.
    pub fn id(&self) -> (s: &'static str)
        ensures
            s@ == "initial_pen_angle_node"@,
    {
        "initial_pen_angle_node"
    }

    /// The node's input slots (none).
    pub fn create_inputs(&self) -> (r: Vec<GraphSlot>)
        ensures
            r@.len() == 0,
    {
        Vec::new()
    }

    /// The node's output slots.
    pub fn create_outputs(&self) -> (r: Vec<GraphSlot>)
        ensures
            slots_view(r@) == seq![("altitude"@, SlotType::F32), ("azimuth"@, SlotType::F32)],
    {
        let r = vec![slot("altitude", SlotType::F32), slot("azimuth", SlotType::F32)];
        assert(slots_view(r@) =~= seq![("altitude"@, SlotType::F32), ("azimuth"@, SlotType::F32)]);
        r
    }

    /// The WGSL code of the node: `let {o0} = {p}.angle.x;\nlet {o1} = {p}.angle.y;\n`.
    pub fn generate_code<D: GraphDataWithInitialPenInput>(&self, ctx: &CodeGenContext) -> (r: Result<String, CodeGenError>)
        ensures
            result_view(r) == code_result(*ctx, 0, 2, false, initial_pen_angle_node_code(output(*ctx, 0), output(*ctx, 1), D::spec_initial_pen_input_field())),
    {
        if let Some(e) = check_slots(ctx, 0, 2, false) {
            return Err(e);
        }
        let field = D::initial_pen_input_field();
        Ok(String::from_str("let ").concat(ctx.outputs[0].as_str()).concat(" = ").concat(field.as_str()).concat(".angle.x;\nlet ").concat(ctx.outputs[1].as_str()).concat(" = ").concat(field.as_str()).concat(".angle.y;\n"))
    }
}

/// The code that `PixelPositionNode` writes.
pub open spec fn pixel_position_node_code(o0: Seq<char>) -> Seq<char> {
    "let "@ + o0 + " = pixel_posf;"@
}

/// The position of the pixel being shaded.
#[derive(Clone, Copy, Debug, Default)]
pub struct PixelPositionNode;

impl PixelPositionNode {
    /// The node's identifier.
    pub fn id(&self) -> (s: &'static str)
        ensures
            s@ == "pixel_position_node"@,
    {
        "pixel_position_node"
    }

    /// The node's input slots (none).
    pub fn create_inputs(&self) -> (r: Vec<GraphSlot>)
        ensures
            r@.len() == 0,
    {
        Vec::new()
    }

    /// The node's output slots.
    pub fn create_outputs(&self) -> (r: Vec<GraphSlot>)
        ensures
            slots_view(r@) == seq![("position"@, SlotType::Vec2F)],
    {
        let r = vec![slot("position", SlotType::Vec2F)];
        assert(slots_view(r@) =~= seq![("position"@, SlotType::Vec2F)]);
        r
    }

    /// The WGSL code of the node: `let {o0} = pixel_posf;`.
    pub fn generate_code(&self, ctx: &CodeGenContext) -> (r: Result<String, CodeGenError>)
        ensures
            result_view(r) == code_result(*ctx, 0, 1, false, pixel_position_node_code(output(*ctx, 0))),
    {
        if let Some(e) = check_slots(ctx, 0, 1, false) {
            return Err(e);
        }

        Ok(String::from_str("let ").concat(ctx.outputs[0].as_str()).concat(" = pixel_posf;"))
    }
}

/// The code that `FilterWithinMaskNode` writes.
pub open spec fn filter_within_mask_node_code(i0: Seq<char>, i1: Seq<char>, i2: Seq<char>, i3: Seq<char>, i4: Seq<char>, i5: Seq<char>, o0: Seq<char>, o1: Seq<char>) -> Seq<char> {
    "let "@ + o0 + " = filter_within_mask(pixel_pos, "@ + i0 + ", "@ + i1 + ", "@ + i4 + ", "@ + i3 + ", "@ + i2 + ", "@ + i5 + ");\nlet "@ + o1 + " = filter_within_mask_bounds("@ + i1 + ", "@ + i4 + ", "@ + i3 + ", "@ + i2 + ", "@ + i5 + ");\n"@
}

/// Keeps a color only inside a transformed mask texture.
#[derive(Clone, Copy, Debug, Default)]
pub struct FilterWithinMaskNode;

impl FilterWithinMaskNode {
    /// The node's identifier.
    pub fn id(&self) -> (s: &'static str)
        ensures
            s@ == "filter_within_mask_node"@,
    {
        "filter_within_mask_node"
    }

    /// The node's input slots.
    pub fn create_inputs(&self) -> (r: Vec<GraphSlot>)
        ensures
            slots_view(r@) == seq![("color"@, SlotType::Color), ("mask"@, SlotType::Texture), ("translation"@, SlotType::Vec2F), ("rotation"@, SlotType::F32), ("scale"@, SlotType::Vec2F), ("anchor"@, SlotType::Vec2F)],
    {
        let r = vec![slot("color", SlotType::Color), slot("mask", SlotType::Texture), slot("translation", SlotType::Vec2F), slot("rotation", SlotType::F32), slot("scale", SlotType::Vec2F), slot("anchor", SlotType::Vec2F)];
        assert(slots_view(r@) =~= seq![("color"@, SlotType::Color), ("mask"@, SlotType::Texture), ("translation"@, SlotType::Vec2F), ("rotation"@, SlotType::F32), ("scale"@, SlotType::Vec2F), ("anchor"@, SlotType::Vec2F)]);
        r
    }

    /// The node's output slots.
    pub fn create_outputs(&self) -> (r: Vec<GraphSlot>)
        ensures
            slots_view(r@) == seq![("color"@, SlotType::Color), ("bounds"@, SlotType::Rect)],
    {
        let r = vec![slot("color", SlotType::Color), slot("bounds", SlotType::Rect)];
        assert(slots_view(r@) =~= seq![("color"@, SlotType::Color), ("bounds"@, SlotType::Rect)]);
        r
    }

    /// The WGSL code of the node: `let {o0} = filter_within_mask(pixel_pos, {i0}, {i1}, {i4}, {i3}, {i2}, {i5});\nlet {o1} = filter_within_mask_bounds({i1}, {i4}, {i3}, {i2}, {i5});\n`.
    pub fn generate_code(&self, ctx: &CodeGenContext) -> (r: Result<String, CodeGenError>)
        ensures
            result_view(r) == code_result(*ctx, 6, 2, true, filter_within_mask_node_code(input(*ctx, 0), input(*ctx, 1), input(*ctx, 2), input(*ctx, 3), input(*ctx, 4), input(*ctx, 5), output(*ctx, 0), output(*ctx, 1))),
    {
        if let Some(e) = check_slots(ctx, 6, 2, true) {
            return Err(e);
        }

        Ok(String::from_str("let ").concat(ctx.outputs[0].as_str()).concat(" = filter_within_mask(pixel_pos, ").concat(ctx.inputs[0].as_str()).concat(", ").concat(ctx.inputs[1].as_str()).concat(", ").concat(ctx.inputs[4].as_str()).concat(", ").concat(ctx.inputs[3].as_str()).concat(", ").concat(ctx.inputs[2].as_str()).concat(", ").concat(ctx.inputs[5].as_str()).concat(");\nlet ").concat(ctx.outputs[1].as_str()).concat(" = filter_within_mask_bounds(").concat(ctx.inputs[1].as_str()).concat(", ").concat(ctx.inputs[4].as_str()).concat(", ").concat(ctx.inputs[3].as_str()).concat(", ").concat(ctx.inputs[2].as_str()).concat(", ").concat(ctx.inputs[5].as_str()).concat(");\n"))
    }
}

/// The code that `FilterWithinBoundsNode` writes.
pub open spec fn filter_within_bounds_node_code(i0: Seq<char>, i1: Seq<char>, o0: Seq<char>, o1: Seq<char>) -> Seq<char> {
    "let "@ + o0 + " = filter_within_bounds(pixel_pos, "@ + i0 + ", "@ + i1 + ");\nlet "@ + o1 + " = "@ + i1 + ";\n"@
}

/// Keeps a color only inside a rectangle.
#[derive(Clone, Copy, Debug, Default)]
pub struct FilterWithinBoundsNode;

impl FilterWithinBoundsNode {
    /// The node's identifier.
    pub fn id(&self) -> (s: &'static str)
        ensures
            s@ == "filter_within_bounds_node"@,
    {
        "filter_within_bounds_node"
    }

    /// The node's input slots.
    pub fn create_inputs(&self) -> (r: Vec<GraphSlot>)
        ensures
            slots_view(r@) == seq![("color"@, SlotType::Color), ("bounds"@, SlotType::Rect)],
    {
        let r = vec![slot("color", SlotType::Color), slot("bounds", SlotType::Rect)];
        assert(slots_view(r@) =~= seq![("color"@, SlotType::Color), ("bounds"@, SlotType::Rect)]);
        r
    }

    /// The node's output slots.
    pub fn create_outputs(&self) -> (r: Vec<GraphSlot>)
        ensures
            slots_view(r@) == seq![("color"@, SlotType::Color), ("bounds"@, SlotType::Rect)],
    {
        let r = vec![slot("color", SlotType::Color), slot("bounds", SlotType::Rect)];
        assert(slots_view(r@) =~= seq![("color"@, SlotType::Color), ("bounds"@, SlotType::Rect)]);
        r
    }

    /// The WGSL code of the node: `let {o0} = filter_within_bounds(pixel_pos, {i0}, {i1});\nlet {o1} = {i1};\n`.
    pub fn generate_code(&self, ctx: &CodeGenContext) -> (r: Result<String, CodeGenError>)
        ensures
            result_view(r) == code_result(*ctx, 2, 2, true, filter_within_bounds_node_code(input(*ctx, 0), input(*ctx, 1), output(*ctx, 0), output(*ctx, 1))),
    {
        if let Some(e) = check_slots(ctx, 2, 2, true) {
            return Err(e);
        }

        Ok(String::from_str("let ").concat(ctx.outputs[0].as_str()).concat(" = filter_within_bounds(pixel_pos, ").concat(ctx.inputs[0].as_str()).concat(", ").concat(ctx.inputs[1].as_str()).concat(");\nlet ").concat(ctx.outputs[1].as_str()).concat(" = ").concat(ctx.inputs[1].as_str()).concat(";\n"))
    }
}

/// The code that `OutputColorNode` writes.
pub open spec fn output_color_node_code(i0: Seq<char>) -> Seq<char> {
    "set_output_color(pixel_pos, "@ + i0 + ");\n"@
}

/// Writes the color of the pixel being shaded.
#[derive(Clone, Copy, Debug, Default)]
pub struct OutputColorNode;

impl OutputColorNode {
    /// The node's identifier.
    pub fn id(&self) -> (s: &'static str)
        ensures
            s@ == "output_color_node"@,
    {
        "output_color_node"
    }

    /// The node's input slots.
    pub fn create_inputs(&self) -> (r: Vec<GraphSlot>)
        ensures
            slots_view(r@) == seq![("color"@, SlotType::Color)],
    {
        let r = vec![slot("color", SlotType::Color)];
        assert(slots_view(r@) =~= seq![("color"@, SlotType::Color)]);
        r
    }

    /// The node's output slots (none).
    pub fn create_outputs(&self) -> (r: Vec<GraphSlot>)
        ensures
            r@.len() == 0,
    {
        Vec::new()
    }

    /// The WGSL code of the node: `set_output_color(pixel_pos, {i0});\n`.
    pub fn generate_code(&self, ctx: &CodeGenContext) -> (r: Result<String, CodeGenError>)
        ensures
            result_view(r) == code_result(*ctx, 1, 0, true, output_color_node_code(input(*ctx, 0))),
    {
        if let Some(e) = check_slots(ctx, 1, 0, true) {
            return Err(e);
        }

        Ok(String::from_str("set_output_color(pixel_pos, ").concat(ctx.inputs[0].as_str()).concat(");\n"))
    }
}

/// The code that `OutputBoundsNode` writes.
pub open spec fn output_bounds_node_code(i0: Seq<char>) -> Seq<char> {
    "set_output_pixel_bounds("@ + i0 + ");"@
}

/// Writes the pixel bounds that the dab touches.
#[derive(Clone, Copy, Debug, Default)]
pub struct OutputBoundsNode;

impl OutputBoundsNode {
    /// The node's identifier.
    pub fn id(&self) -> (s: &'static str)
        ensures
            s@ == "output_bounds_node"@,
    {
        "output_bounds_node"
    }

    /// The node's input slots.
    pub fn create_inputs(&self) -> (r: Vec<GraphSlot>)
        ensures
            slots_view(r@) == seq![("bounds"@, SlotType::Rect)],
    {
        let r = vec![slot("bounds", SlotType::Rect)];
        assert(slots_view(r@) =~= seq![("bounds"@, SlotType::Rect)]);
        r
    }

    /// The node's output slots (none).
    pub fn create_outputs(&self) -> (r: Vec<GraphSlot>)
        ensures
            r@.len() == 0,
    {
        Vec::new()
    }

    /// The WGSL code of the node: `set_output_pixel_bounds({i0});`.
    pub fn generate_code(&self, ctx: &CodeGenContext) -> (r: Result<String, CodeGenError>)
        ensures
            result_view(r) == code_result(*ctx, 1, 0, true, output_bounds_node_code(input(*ctx, 0))),
    {
        if let Some(e) = check_slots(ctx, 1, 0, true) {
            return Err(e);
        }

        Ok(String::from_str("set_output_pixel_bounds(").concat(ctx.inputs[0].as_str()).concat(");"))
    }
}

/// The code that `CurrentPixelColorNode` writes.
pub open spec fn current_pixel_color_node_code(i0: Seq<char>, o0: Seq<char>) -> Seq<char> {
    "let "@ + o0 + " = current_input_color(vec2i("@ + i0 + "));\n"@
}

/// The color of the stroke buffer at a position.
#[derive(Clone, Copy, Debug, Default)]
pub struct CurrentPixelColorNode;

impl CurrentPixelColorNode {
    /// The node's identifier.
    pub fn id(&self) -> (s: &'static str)
        ensures
            s@ == "current_pixel_color_node"@,
    {
        "current_pixel_color_node"
    }

    /// The node's input slots.
    pub fn create_inputs(&self) -> (r: Vec<GraphSlot>)
        ensures
            slots_view(r@) == seq![("position"@, SlotType::Vec2F)],
    {
        let r = vec![slot("position", SlotType::Vec2F)];
        assert(slots_view(r@) =~= seq![("position"@, SlotType::Vec2F)]);
        r
    }

    /// The node's output slots.
    pub fn create_outputs(&self) -> (r: Vec<GraphSlot>)
        ensures
            slots_view(r@) == seq![("color"@, SlotType::Color)],
    {
        let r = vec![slot("color", SlotType::Color)];
        assert(slots_view(r@) =~= seq![("color"@, SlotType::Color)]);
        r
    }

    /// The WGSL code of the node: `let {o0} = current_input_color(vec2i({i0}));\n`.
    pub fn generate_code(&self, ctx: &CodeGenContext) -> (r: Result<String, CodeGenError>)
        ensures
            result_view(r) == code_result(*ctx, 1, 1, false, current_pixel_color_node_code(input(*ctx, 0), output(*ctx, 0))),
    {
        if let Some(e) = check_slots(ctx, 1, 1, false) {
            return Err(e);
        }

        Ok(String::from_str("let ").concat(ctx.outputs[0].as_str()).concat(" = current_input_color(vec2i(").concat(ctx.inputs[0].as_str()).concat("));\n"))
    }
}

/// The code that `LayerPixelColorNode` writes.
pub open spec fn layer_pixel_color_node_code(i0: Seq<char>, o0: Seq<char>) -> Seq<char> {
    "let "@ + o0 + " = target_layer_color(vec2i("@ + i0 + "));\n"@
}

/// The color of the target layer at a position.
#[derive(Clone, Copy, Debug, Default)]
pub struct LayerPixelColorNode;

impl LayerPixelColorNode {
    /// The node's identifier.
    pub fn id(&self) -> (s: &'static str)
        ensures
            s@ == "layer_pixel_color_node"@,
    {
        "layer_pixel_color_node"
    }

    /// The node's input slots.
    pub fn create_inputs(&self) -> (r: Vec<GraphSlot>)
        ensures
            slots_view(r@) == seq![("position"@, SlotType::Vec2F)],
    {
        let r = vec![slot("position", SlotType::Vec2F)];
        assert(slots_view(r@) =~= seq![("position"@, SlotType::Vec2F)]);
        r
    }

    /// The node's output slots.
    pub fn create_outputs(&self) -> (r: Vec<GraphSlot>)
        ensures
            slots_view(r@) == seq![("color"@, SlotType::Color)],
    {
        let r = vec![slot("color", SlotType::Color)];
        assert(slots_view(r@) =~= seq![("color"@, SlotType::Color)]);
        r
    }

    /// The WGSL code of the node: `let {o0} = target_layer_color(vec2i({i0}));\n`.
    pub fn generate_code(&self, ctx: &CodeGenContext) -> (r: Result<String, CodeGenError>)
        ensures
            result_view(r) == code_result(*ctx, 1, 1, false, layer_pixel_color_node_code(input(*ctx, 0), output(*ctx, 0))),
    {
        if let Some(e) = check_slots(ctx, 1, 1, false) {
            return Err(e);
        }

        Ok(String::from_str("let ").concat(ctx.outputs[0].as_str()).concat(" = target_layer_color(vec2i(").concat(ctx.inputs[0].as_str()).concat("));\n"))
    }
}

/// The code that `StrokeBoundsNode` writes.
pub open spec fn stroke_bounds_node_code(o0: Seq<char>) -> Seq<char> {
    "let "@ + o0 + " = Rect(vec2f(graph_input.accumulated_pixel_bound.min), vec2f(graph_input.accumulated_pixel_bound.max));"@
}

/// The pixel bounds accumulated over the stroke (post-processing graphs only).
#[derive(Clone, Copy, Debug, Default)]
pub struct StrokeBoundsNode;

impl StrokeBoundsNode {
    /// The node's identifier.
    pub fn id(&self) -> (s: &'static str)
        ensures
            s@ == "stroke_bounds_node"@,
    {
        "stroke_bounds_node"
    }

    /// The node's input slots (none).
    pub fn create_inputs(&self) -> (r: Vec<GraphSlot>)
        ensures
            r@.len() == 0,
    {
        Vec::new()
    }

    /// The node's output slots.
    pub fn create_outputs(&self) -> (r: Vec<GraphSlot>)
        ensures
            slots_view(r@) == seq![("bounds"@, SlotType::Rect)],
    {
        let r = vec![slot("bounds", SlotType::Rect)];
        assert(slots_view(r@) =~= seq![("bounds"@, SlotType::Rect)]);
        r
    }

    /// The WGSL code of the node: `let {o0} = Rect(vec2f(graph_input.accumulated_pixel_bound.min), vec2f(graph_input.accumulated_pixel_bound.max));`.
    pub fn generate_code(&self, ctx: &CodeGenContext) -> (r: Result<String, CodeGenError>)
        ensures
            result_view(r) == code_result(*ctx, 0, 1, false, stroke_bounds_node_code(output(*ctx, 0))),
    {
        if let Some(e) = check_slots(ctx, 0, 1, false) {
            return Err(e);
        }

        Ok(String::from_str("let ").concat(ctx.outputs[0].as_str()).concat(" = Rect(vec2f(graph_input.accumulated_pixel_bound.min), vec2f(graph_input.accumulated_pixel_bound.max));"))
    }
}

/// The code that `EllipticalMaskNode` writes.
pub open spec fn elliptical_mask_node_code(i0: Seq<char>, i1: Seq<char>, i2: Seq<char>, i3: Seq<char>, o0: Seq<char>, o1: Seq<char>, mask: Seq<char>) -> Seq<char> {
    "let "@ + mask + " = elliptical_mask("@ + i0 + ", "@ + i1 + ", "@ + i2 + ", "@ + i3 + ");\nlet "@ + o0 + " = "@ + mask + ".value;\nlet "@ + o1 + " = "@ + mask + ".bounds;\n"@
}

/// The value and bounds of a rotated ellipse.
#[derive(Clone, Copy, Debug, Default)]
pub struct EllipticalMaskNode;

impl EllipticalMaskNode {
    /// The node's identifier.
    pub fn id(&self) -> (s: &'static str)
        ensures
            s@ == "elliptical_mask_node"@,
    {
        "elliptical_mask_node"
    }

    /// The node's input slots.
    pub fn create_inputs(&self) -> (r: Vec<GraphSlot>)
        ensures
            slots_view(r@) == seq![("sample_position"@, SlotType::Vec2F), ("center"@, SlotType::Vec2F), ("radii"@, SlotType::Vec2F), ("rotation"@, SlotType::F32)],
    {
        let r = vec![slot("sample_position", SlotType::Vec2F), slot("center", SlotType::Vec2F), slot("radii", SlotType::Vec2F), slot("rotation", SlotType::F32)];
        assert(slots_view(r@) =~= seq![("sample_position"@, SlotType::Vec2F), ("center"@, SlotType::Vec2F), ("radii"@, SlotType::Vec2F), ("rotation"@, SlotType::F32)]);
        r
    }

    /// The node's output slots.
    pub fn create_outputs(&self) -> (r: Vec<GraphSlot>)
        ensures
            slots_view(r@) == seq![("mask_value"@, SlotType::F32), ("bounds"@, SlotType::Rect)],
    {
        let r = vec![slot("mask_value", SlotType::F32), slot("bounds", SlotType::Rect)];
        assert(slots_view(r@) =~= seq![("mask_value"@, SlotType::F32), ("bounds"@, SlotType::Rect)]);
        r
    }

    /// The WGSL code of the node: `let {m} = elliptical_mask({i0}, {i1}, {i2}, {i3});\nlet {o0} = {m}.value;\nlet {o1} = {m}.bounds;\n`.
    pub fn generate_code(&self, ctx: &CodeGenContext) -> (r: Result<String, CodeGenError>)
        ensures
            result_view(r) == code_result(*ctx, 4, 2, true, elliptical_mask_node_code(input(*ctx, 0), input(*ctx, 1), input(*ctx, 2), input(*ctx, 3), output(*ctx, 0), output(*ctx, 1), ctx.fresh_ident@)),
    {
        if let Some(e) = check_slots(ctx, 4, 2, true) {
            return Err(e);
        }

        Ok(String::from_str("let ").concat(ctx.fresh_ident.as_str()).concat(" = elliptical_mask(").concat(ctx.inputs[0].as_str()).concat(", ").concat(ctx.inputs[1].as_str()).concat(", ").concat(ctx.inputs[2].as_str()).concat(", ").concat(ctx.inputs[3].as_str()).concat(");\nlet ").concat(ctx.outputs[0].as_str()).concat(" = ").concat(ctx.fresh_ident.as_str()).concat(".value;\nlet ").concat(ctx.outputs[1].as_str()).concat(" = ").concat(ctx.fresh_ident.as_str()).concat(".bounds;\n"))
    }
}

/// The code that `OutputSpacingNode` writes.
pub open spec fn output_spacing_node_code(i0: Seq<char>) -> Seq<char> {
    "return "@ + i0 + ";\n"@
}

/// Returns the spacing to the next dab.
#[derive(Clone, Copy, Debug, Default)]
pub struct OutputSpacingNode;

impl OutputSpacingNode {
    /// The node's identifier.
    pub fn id(&self) -> (s: &'static str)
        ensures
            s@ == "output_spacing_node"@,
    {
        "output_spacing_node"
    }

    /// The node's input slots.
    pub fn create_inputs(&self) -> (r: Vec<GraphSlot>)
        ensures
            slots_view(r@) == seq![("spacing"@, SlotType::F32)],
    {
        let r = vec![slot("spacing", SlotType::F32)];
        assert(slots_view(r@) =~= seq![("spacing"@, SlotType::F32)]);
        r
    }

    /// The node's output slots (none).
    pub fn create_outputs(&self) -> (r: Vec<GraphSlot>)
        ensures
            r@.len() == 0,
    {
        Vec::new()
    }

    /// The WGSL code of the node: `return {i0};\n`.
    pub fn generate_code(&self, ctx: &CodeGenContext) -> (r: Result<String, CodeGenError>)
        ensures
            result_view(r) == code_result(*ctx, 1, 0, true, output_spacing_node_code(input(*ctx, 0))),
    {
        if let Some(e) = check_slots(ctx, 1, 0, true) {
            return Err(e);
        }

        Ok(String::from_str("return ").concat(ctx.inputs[0].as_str()).concat(";\n"))
    }
}

/// The code that `OutputRequiredSpacingNode` writes.
pub open spec fn output_required_spacing_node_code(i0: Seq<char>) -> Seq<char> {
    "return "@ + i0 + ";\n"@
}

/// Returns the spacing that the brush requires.
#[derive(Clone, Copy, Debug, Default)]
pub struct OutputRequiredSpacingNode;

impl OutputRequiredSpacingNode {
    /// The node's identifier.
    pub fn id(&self) -> (s: &'static str)
        ensures
            s@ == "output_required_spacing_node"@,
    {
        "output_required_spacing_node"
    }

    /// The node's input slots.
    pub fn create_inputs(&self) -> (r: Vec<GraphSlot>)
        ensures
            slots_view(r@) == seq![("required_spacing"@, SlotType::F32)],
    {
        let r = vec![slot("required_spacing", SlotType::F32)];
        assert(slots_view(r@) =~= seq![("required_spacing"@, SlotType::F32)]);
        r
    }

    /// The node's output slots (none).
    pub fn create_outputs(&self) -> (r: Vec<GraphSlot>)
        ensures
            r@.len() == 0,
    {
        Vec::new()
    }

    /// The WGSL code of the node: `return {i0};\n`.
    pub fn generate_code(&self, ctx: &CodeGenContext) -> (r: Result<String, CodeGenError>)
        ensures
            result_view(r) == code_result(*ctx, 1, 0, true, output_required_spacing_node_code(input(*ctx, 0))),
    {
        if let Some(e) = check_slots(ctx, 1, 0, true) {
            return Err(e);
        }

        Ok(String::from_str("return ").concat(ctx.inputs[0].as_str()).concat(";\n"))
    }
}

/// The code that `SelectionMaskNode` writes.
pub open spec fn selection_mask_node_code(i0: Seq<char>, o0: Seq<char>) -> Seq<char> {
    "let "@ + o0 + " = load_selection_mask_value(vec2i("@ + i0 + "));\n"@
}

/// The selection mask value at a position.
#[derive(Clone, Copy, Debug, Default)]
pub struct SelectionMaskNode;

impl SelectionMaskNode {
    /// The node's identifier.
    pub fn id(&self) -> (s: &'static str)
        ensures
            s@ == "selection_mask_node"@,
    {
        "selection_mask_node"
    }

    /// The node's input slots.
    pub fn create_inputs(&self) -> (r: Vec<GraphSlot>)
        ensures
            slots_view(r@) == seq![("position"@, SlotType::Vec2F)],
    {
        let r = vec![slot("position", SlotType::Vec2F)];
        assert(slots_view(r@) =~= seq![("position"@, SlotType::Vec2F)]);
        r
    }

    /// The node's output slots.
    pub fn create_outputs(&self) -> (r: Vec<GraphSlot>)
        ensures
            slots_view(r@) == seq![("value"@, SlotType::F32)],
    {
        let r = vec![slot("value", SlotType::F32)];
        assert(slots_view(r@) =~= seq![("value"@, SlotType::F32)]);
        r
    }

    /// The WGSL code of the node: `let {o0} = load_selection_mask_value(vec2i({i0}));\n`.
    pub fn generate_code(&self, ctx: &CodeGenContext) -> (r: Result<String, CodeGenError>)
        ensures
            result_view(r) == code_result(*ctx, 1, 1, true, selection_mask_node_code(input(*ctx, 0), output(*ctx, 0))),
    {
        if let Some(e) = check_slots(ctx, 1, 1, true) {
            return Err(e);
        }

        Ok(String::from_str("let ").concat(ctx.outputs[0].as_str()).concat(" = load_selection_mask_value(vec2i(").concat(ctx.inputs[0].as_str()).concat("));\n"))
    }
}

/// The code that `ForegroundColorNode` writes.
pub open spec fn foreground_color_node_code(o0: Seq<char>, field: Seq<char>) -> Seq<char> {
    "let "@ + o0 + " = "@ + field + ".foreground_color;\n"@
}

/// The current foreground color.
#[derive(Clone, Copy, Debug, Default)]
pub struct ForegroundColorNode;

impl ForegroundColorNode {
    /// The node's identifier.
    pub fn id(&self) -> (s: &'static str)
        ensures
            s@ == "foreground_color_node"@,
    {
        "foreground_color_node"
    }

    /// The node's input slots (none).
    pub fn create_inputs(&self) -> (r: Vec<GraphSlot>)
        ensures
            r@.len() == 0,
    {
        Vec::new()
    }

    /// The node's output slots.
    pub fn create_outputs(&self) -> (r: Vec<GraphSlot>)
        ensures
            slots_view(r@) == seq![("color"@, SlotType::Color)],
    {
        let r = vec![slot("color", SlotType::Color)];
        assert(slots_view(r@) =~= seq![("color"@, SlotType::Color)]);
        r
    }

    /// The WGSL code of the node: `let {o0} = {p}.foreground_color;\n`.
    pub fn generate_code<D: GraphDataWithBrushResource>(&self, ctx: &CodeGenContext) -> (r: Result<String, CodeGenError>)
        ensures
            result_view(r) == code_result(*ctx, 0, 1, false, foreground_color_node_code(output(*ctx, 0), D::spec_canvas_resources_field())),
    {
        if let Some(e) = check_slots(ctx, 0, 1, false) {
            return Err(e);
        }
        let field = D::canvas_resources_field();
        Ok(String::from_str("let ").concat(ctx.outputs[0].as_str()).concat(" = ").concat(field.as_str()).concat(".foreground_color;\n"))
    }
}

/// The code that `BackgroundColorNode` writes.
pub open spec fn background_color_node_code(o0: Seq<char>, field: Seq<char>) -> Seq<char> {
    "let "@ + o0 + " = "@ + field + ".background_color;\n"@
}

/// The current background color.
#[derive(Clone, Copy, Debug, Default)]
pub struct BackgroundColorNode;

impl BackgroundColorNode {
    /// The node's identifier.
    pub fn id(&self) -> (s: &'static str)
        ensures
            s@ == "background_color_node"@,
    {
        "background_color_node"
    }

    /// The node's input slots (none).
    pub fn create_inputs(&self) -> (r: Vec<GraphSlot>)
        ensures
            r@.len() == 0,
    {
        Vec::new()
    }

    /// The node's output slots.
    pub fn create_outputs(&self) -> (r: Vec<GraphSlot>)
        ensures
            slots_view(r@) == seq![("color"@, SlotType::Color)],
    {
        let r = vec![slot("color", SlotType::Color)];
        assert(slots_view(r@) =~= seq![("color"@, SlotType::Color)]);
        r
    }

    /// The WGSL code of the node: `let {o0} = {p}.background_color;\n`.
    pub fn generate_code<D: GraphDataWithBrushResource>(&self, ctx: &CodeGenContext) -> (r: Result<String, CodeGenError>)
        ensures
            result_view(r) == code_result(*ctx, 0, 1, false, background_color_node_code(output(*ctx, 0), D::spec_canvas_resources_field())),
    {
        if let Some(e) = check_slots(ctx, 0, 1, false) {
            return Err(e);
        }
        let field = D::canvas_resources_field();
        Ok(String::from_str("let ").concat(ctx.outputs[0].as_str()).concat(" = ").concat(field.as_str()).concat(".background_color;\n"))
    }
}

/// The code that `PasteTextureNode` writes.
pub open spec fn paste_texture_node_code(i0: Seq<char>, i1: Seq<char>, i2: Seq<char>, i3: Seq<char>, i4: Seq<char>, o0: Seq<char>, function: Seq<char>) -> Seq<char> {
    "let "@ + o0 + " = "@ + function + "("@ + i0 + ", pixel_posf, "@ + i3 + ", "@ + i2 + ", "@ + i1 + ", "@ + i4 + ");\n"@
}

/// Samples a transformed texture, clamped or wrapped.
#[derive(Clone, Copy, Debug, Default)]
pub struct PasteTextureNode;

impl PasteTextureNode {
    /// The node's identifier.
    pub fn id(&self) -> (s: &'static str)
        ensures
            s@ == "paste_texture_node"@,
    {
        "paste_texture_node"
    }

    /// The node's input slots.
    pub fn create_inputs(&self) -> (r: Vec<GraphSlot>)
        ensures
            slots_view(r@) == seq![("texture"@, SlotType::Texture), ("translation"@, SlotType::Vec2F), ("rotation"@, SlotType::F32), ("scale"@, SlotType::Vec2F), ("anchor"@, SlotType::Vec2F)],
    {
        let r = vec![slot("texture", SlotType::Texture), slot("translation", SlotType::Vec2F), slot("rotation", SlotType::F32), slot("scale", SlotType::Vec2F), slot("anchor", SlotType::Vec2F)];
        assert(slots_view(r@) =~= seq![("texture"@, SlotType::Texture), ("translation"@, SlotType::Vec2F), ("rotation"@, SlotType::F32), ("scale"@, SlotType::Vec2F), ("anchor"@, SlotType::Vec2F)]);
        r
    }

    /// The node's output slots.
    pub fn create_outputs(&self) -> (r: Vec<GraphSlot>)
        ensures
            slots_view(r@) == seq![("color"@, SlotType::Color)],
    {
        let r = vec![slot("color", SlotType::Color)];
        assert(slots_view(r@) =~= seq![("color"@, SlotType::Color)]);
        r
    }

    /// The WGSL code of the node: `let {o0} = {fn}({i0}, pixel_posf, {i3}, {i2}, {i1}, {i4});\n`.
    pub fn generate_code(&self, state: &PasteTextureNodeState, ctx: &CodeGenContext) -> (r: Result<String, CodeGenError>)
        ensures
            result_view(r) == code_result(*ctx, 5, 1, true, paste_texture_node_code(input(*ctx, 0), input(*ctx, 1), input(*ctx, 2), input(*ctx, 3), input(*ctx, 4), output(*ctx, 0), state.mode.spec_sample_function())),
    {
        if let Some(e) = check_slots(ctx, 5, 1, true) {
            return Err(e);
        }
        let function = state.mode.sample_function();
        Ok(String::from_str("let ").concat(ctx.outputs[0].as_str()).concat(" = ").concat(function).concat("(").concat(ctx.inputs[0].as_str()).concat(", pixel_posf, ").concat(ctx.inputs[3].as_str()).concat(", ").concat(ctx.inputs[2].as_str()).concat(", ").concat(ctx.inputs[1].as_str()).concat(", ").concat(ctx.inputs[4].as_str()).concat(");\n"))
    }
}

/// The code that `BlendColorNode` writes.
pub open spec fn blend_color_node_code(i0: Seq<char>, i1: Seq<char>, o0: Seq<char>, function: Seq<char>) -> Seq<char> {
    "let "@ + o0 + " = image::blend_modes::"@ + function + "("@ + i0 + ", "@ + i1 + ");\n"@
}

/// Blends two colors with the node's blend mode.
#[derive(Clone, Copy, Debug, Default)]
pub struct BlendColorNode;

impl BlendColorNode {
    /// The node's identifier.
    pub fn id(&self) -> (s: &'static str)
        ensures
            s@ == "blend_color_node"@,
    {
        "blend_color_node"
    }

    /// The node's input slots.
    pub fn create_inputs(&self) -> (r: Vec<GraphSlot>)
        ensures
            slots_view(r@) == seq![("src_color"@, SlotType::Color), ("dst_color"@, SlotType::Color)],
    {
        let r = vec![slot("src_color", SlotType::Color), slot("dst_color", SlotType::Color)];
        assert(slots_view(r@) =~= seq![("src_color"@, SlotType::Color), ("dst_color"@, SlotType::Color)]);
        r
    }

    /// The node's output slots.
    pub fn create_outputs(&self) -> (r: Vec<GraphSlot>)
        ensures
            slots_view(r@) == seq![("color"@, SlotType::Color)],
    {
        let r = vec![slot("color", SlotType::Color)];
        assert(slots_view(r@) =~= seq![("color"@, SlotType::Color)]);
        r
    }

    /// The WGSL code of the node: `let {o0} = image::blend_modes::{fn}({i0}, {i1});\n`.
    pub fn generate_code(&self, state: &BlendModeNodeState, ctx: &CodeGenContext) -> (r: Result<String, CodeGenError>)
        ensures
            result_view(r) == code_result(*ctx, 2, 1, true, blend_color_node_code(input(*ctx, 0), input(*ctx, 1), output(*ctx, 0), state.blend_function@)),
    {
        if let Some(e) = check_slots(ctx, 2, 1, true) {
            return Err(e);
        }
        let function = state.blend_function.as_str();
        Ok(String::from_str("let ").concat(ctx.outputs[0].as_str()).concat(" = image::blend_modes::").concat(function).concat("(").concat(ctx.inputs[0].as_str()).concat(", ").concat(ctx.inputs[1].as_str()).concat(");\n"))
    }
}

/// The blend call of `BlendColorNode` takes the source colour (the
/// expression bound to input slot 0, `src_color`) as its first argument and
/// the destination colour (slot 1, `dst_color`) as its second: after
/// `let {o0} = image::blend_modes::{f}(`, which takes `28 + |o0| + |f|`
/// characters, come `i0`, then `, `, then `i1`, then `);` and a newline,
/// and nothing else.
pub proof fn lemma_blend_call_passes_source_first(i0: Seq<char>, i1: Seq<char>, o0: Seq<char>, f: Seq<char>)
    ensures
        ({
            let c = blend_color_node_code(i0, i1, o0, f);
            let k: int = 28int + o0.len() + f.len();
            let m: int = k + i0.len();
            &&& c.len() == m + 2 + i1.len() + 3
            &&& c[k - 1] == '('
            &&& c.subrange(k, m) == i0
            &&& c[m] == ',' && c[m + 1] == ' '
            &&& c.subrange(m + 2, m + 2 + i1.len()) == i1
            &&& c[m + 2 + i1.len()] == ')'
        }),
{
    reveal_strlit("let ");
    reveal_strlit(" = image::blend_modes::");
    reveal_strlit("(");
    reveal_strlit(", ");
    reveal_strlit(");\n");
    let c = blend_color_node_code(i0, i1, o0, f);
    let k: int = 28int + o0.len() + f.len();
    let m: int = k + i0.len();
    let head = "let "@ + o0 + " = image::blend_modes::"@ + f + "("@;
    assert(head.len() == k);
    assert(c == head + i0 + ", "@ + i1 + ");\n"@);
    assert(c[k - 1] == head[k - 1]);
    assert(c.subrange(k, m) =~= i0);
    assert(c.subrange(m + 2, m + 2 + i1.len()) =~= i1);
}

/// The code that `BlendWithInputNode` writes.
pub open spec fn blend_with_input_node_code(i0: Seq<char>, i1: Seq<char>, o0: Seq<char>, function: Seq<char>) -> Seq<char> {
    "let "@ + o0 + " = image::blend_modes::"@ + function + "(vec4f("@ + i0 + ".rgb, "@ + i0 + ".a * "@ + i1 + "), current_input_color(pixel_pos));\n"@
}

/// Blends a color onto the stroke buffer.
#[derive(Clone, Copy, Debug, Default)]
pub struct BlendWithInputNode;

impl BlendWithInputNode {
    /// The node's identifier.
    pub fn id(&self) -> (s: &'static str)
        ensures
            s@ == "blend_with_input_node"@,
    {
        "blend_with_input_node"
    }

    /// The node's input slots.
    pub fn create_inputs(&self) -> (r: Vec<GraphSlot>)
        ensures
            slots_view(r@) == seq![("color"@, SlotType::Color), ("opacity"@, SlotType::F32)],
    {
        let r = vec![slot("color", SlotType::Color), slot("opacity", SlotType::F32)];
        assert(slots_view(r@) =~= seq![("color"@, SlotType::Color), ("opacity"@, SlotType::F32)]);
        r
    }

    /// The node's output slots.
    pub fn create_outputs(&self) -> (r: Vec<GraphSlot>)
        ensures
            slots_view(r@) == seq![("color"@, SlotType::Color)],
    {
        let r = vec![slot("color", SlotType::Color)];
        assert(slots_view(r@) =~= seq![("color"@, SlotType::Color)]);
        r
    }

    /// The WGSL code of the node: `let {o0} = image::blend_modes::{fn}(vec4f({i0}.rgb, {i0}.a * {i1}), current_input_color(pixel_pos));\n`.
    pub fn generate_code(&self, state: &BlendModeNodeState, ctx: &CodeGenContext) -> (r: Result<String, CodeGenError>)
        ensures
            result_view(r) == code_result(*ctx, 2, 1, true, blend_with_input_node_code(input(*ctx, 0), input(*ctx, 1), output(*ctx, 0), state.blend_function@)),
    {
        if let Some(e) = check_slots(ctx, 2, 1, true) {
            return Err(e);
        }
        let function = state.blend_function.as_str();
        Ok(String::from_str("let ").concat(ctx.outputs[0].as_str()).concat(" = image::blend_modes::").concat(function).concat("(vec4f(").concat(ctx.inputs[0].as_str()).concat(".rgb, ").concat(ctx.inputs[0].as_str()).concat(".a * ").concat(ctx.inputs[1].as_str()).concat("), current_input_color(pixel_pos));\n"))
    }
}

/// The code that `BlendWithLayerNode` writes.
pub open spec fn blend_with_layer_node_code(i0: Seq<char>, i1: Seq<char>, o0: Seq<char>, function: Seq<char>) -> Seq<char> {
    "let "@ + o0 + " = image::blend_modes::"@ + function + "(vec4f("@ + i0 + ".rgb, "@ + i0 + ".a * "@ + i1 + "), target_layer_color(pixel_pos));\n"@
}

/// Blends a color onto the target layer.
#[derive(Clone, Copy, Debug, Default)]
pub struct BlendWithLayerNode;

impl BlendWithLayerNode {
    /// The node's identifier.
    pub fn id(&self) -> (s: &'static str)
        ensures
            s@ == "blend_with_layer_node"@,
    {
        "blend_with_layer_node"
    }

    /// The node's input slots.
    pub fn create_inputs(&self) -> (r: Vec<GraphSlot>)
        ensures
            slots_view(r@) == seq![("color"@, SlotType::Color), ("opacity"@, SlotType::F32)],
    {
        let r = vec![slot("color", SlotType::Color), slot("opacity", SlotType::F32)];
        assert(slots_view(r@) =~= seq![("color"@, SlotType::Color), ("opacity"@, SlotType::F32)]);
        r
    }

    /// The node's output slots.
    pub fn create_outputs(&self) -> (r: Vec<GraphSlot>)
        ensures
            slots_view(r@) == seq![("color"@, SlotType::Color)],
    {
        let r = vec![slot("color", SlotType::Color)];
        assert(slots_view(r@) =~= seq![("color"@, SlotType::Color)]);
        r
    }

    /// The WGSL code of the node: `let {o0} = image::blend_modes::{fn}(vec4f({i0}.rgb, {i0}.a * {i1}), target_layer_color(pixel_pos));\n`.
    pub fn generate_code(&self, state: &BlendModeNodeState, ctx: &CodeGenContext) -> (r: Result<String, CodeGenError>)
        ensures
            result_view(r) == code_result(*ctx, 2, 1, true, blend_with_layer_node_code(input(*ctx, 0), input(*ctx, 1), output(*ctx, 0), state.blend_function@)),
    {
        if let Some(e) = check_slots(ctx, 2, 1, true) {
            return Err(e);
        }
        let function = state.blend_function.as_str();
        Ok(String::from_str("let ").concat(ctx.outputs[0].as_str()).concat(" = image::blend_modes::").concat(function).concat("(vec4f(").concat(ctx.inputs[0].as_str()).concat(".rgb, ").concat(ctx.inputs[0].as_str()).concat(".a * ").concat(ctx.inputs[1].as_str()).concat("), target_layer_color(pixel_pos));\n"))
    }
}

/// Call arguments written one after the other, separated by `, `.
pub open spec fn join_args(args: Seq<Seq<char>>) -> Seq<char>
    decreases args.len(),
{
    if args.len() == 0 {
        Seq::empty()
    } else if args.len() == 1 {
        args[0]
    } else {
        join_args(args.drop_last()) + ", "@ + args.last()
    }
}

/// The WGSL statement `let {out} = {function}({args});` and a newline.
pub open spec fn let_call(out: Seq<char>, function: Seq<char>, args: Seq<Seq<char>>) -> Seq<char> {
    "let "@ + out + " = "@ + function + "("@ + join_args(args) + ");\n"@
}

/// The argument lists the calls below are checked against, unfolded.
proof fn lemma_join_args_unfold(a: Seq<Seq<char>>)
    requires
        a.len() <= 7,
    ensures
        a.len() == 2 ==> join_args(a) == a[0] + ", "@ + a[1],
        a.len() == 3 ==> join_args(a) == a[0] + ", "@ + a[1] + ", "@ + a[2],
        a.len() == 4 ==> join_args(a) == a[0] + ", "@ + a[1] + ", "@ + a[2] + ", "@ + a[3],
        a.len() == 5 ==> join_args(a) == a[0] + ", "@ + a[1] + ", "@ + a[2] + ", "@ + a[3] + ", "@
            + a[4],
        a.len() == 6 ==> join_args(a) == a[0] + ", "@ + a[1] + ", "@ + a[2] + ", "@ + a[3] + ", "@
            + a[4] + ", "@ + a[5],
        a.len() == 7 ==> join_args(a) == a[0] + ", "@ + a[1] + ", "@ + a[2] + ", "@ + a[3] + ", "@
            + a[4] + ", "@ + a[5] + ", "@ + a[6],
    decreases a.len(),
{
    if a.len() >= 2 {
        let b = a.drop_last();
        lemma_join_args_unfold(b);
        if a.len() == 2 {
            assert(join_args(b) == a[0]);
        }
        assert(forall|i: int| 0 <= i < b.len() ==> b[i] == a[i]);
    }
}

/// The blend call of `BlendColorNode` passes the source colour (input slot
/// 0) then the destination colour (slot 1) to the blend function of its
/// state.
pub proof fn lemma_blend_color_call_arguments(src: Seq<char>, dst: Seq<char>, out: Seq<char>, f: Seq<char>)
    ensures
        blend_color_node_code(src, dst, out, f) == let_call(out, "image::blend_modes::"@ + f, seq![src, dst]),
{
    reveal_strlit("let ");
    reveal_strlit(" = ");
    reveal_strlit(" = image::blend_modes::");
    reveal_strlit("image::blend_modes::");
    reveal_strlit("(");
    reveal_strlit(", ");
    reveal_strlit(");\n");
    lemma_join_args_unfold(seq![src, dst]);
    assert(blend_color_node_code(src, dst, out, f) =~= let_call(out, "image::blend_modes::"@ + f, seq![src, dst]));
}

/// `PasteTextureNode` samples the texture (input slot 0) at the pixel,
/// passing the scale (slot 3), rotation (slot 2), translation (slot 1) and
/// anchor (slot 4) in that order to the sampling function of its mode.
pub proof fn lemma_paste_texture_call_arguments(
    texture: Seq<char>,
    translation: Seq<char>,
    rotation: Seq<char>,
    scale: Seq<char>,
    anchor: Seq<char>,
    out: Seq<char>,
    f: Seq<char>,
)
    ensures
        paste_texture_node_code(texture, translation, rotation, scale, anchor, out, f) == let_call(
            out,
            f,
            seq![texture, "pixel_posf"@, scale, rotation, translation, anchor],
        ),
{
    reveal_strlit("let ");
    reveal_strlit(" = ");
    reveal_strlit("(");
    reveal_strlit(", ");
    reveal_strlit(", pixel_posf, ");
    reveal_strlit("pixel_posf");
    reveal_strlit(");\n");
    let args = seq![texture, "pixel_posf"@, scale, rotation, translation, anchor];
    lemma_join_args_unfold(args);
    assert(paste_texture_node_code(texture, translation, rotation, scale, anchor, out, f) =~= let_call(
        out,
        f,
        args,
    ));
}

/// `FilterWithinMaskNode` filters the colour (input slot 0) at the pixel
/// through the mask (slot 1) moved by scale (slot 4), rotation (slot 3),
/// translation (slot 2) and anchor (slot 5), in that order, and computes
/// the bounds from the same mask and transform.
#[verifier::spinoff_prover]
#[verifier::rlimit(60)]
pub proof fn lemma_filter_within_mask_call_arguments(
    color: Seq<char>,
    mask: Seq<char>,
    translation: Seq<char>,
    rotation: Seq<char>,
    scale: Seq<char>,
    anchor: Seq<char>,
    out_color: Seq<char>,
    out_bounds: Seq<char>,
)
    ensures
        filter_within_mask_node_code(color, mask, translation, rotation, scale, anchor, out_color, out_bounds)
            == let_call(
            out_color,
            "filter_within_mask"@,
            seq!["pixel_pos"@, color, mask, scale, rotation, translation, anchor],
        ) + let_call(
            out_bounds,
            "filter_within_mask_bounds"@,
            seq![mask, scale, rotation, translation, anchor],
        ),
{
    let a1 = seq!["pixel_pos"@, color, mask, scale, rotation, translation, anchor];
    let a2 = seq![mask, scale, rotation, translation, anchor];
    let sep = ", "@;
    let p1 = "let "@ + out_color + " = filter_within_mask(pixel_pos, "@ + color + sep + mask + sep
        + scale + sep + rotation + sep + translation + sep + anchor + ");\n"@;
    let p2 = "let "@ + out_bounds + " = filter_within_mask_bounds("@ + mask + sep + scale + sep
        + rotation + sep + translation + sep + anchor + ");\n"@;
    assert(filter_within_mask_node_code(color, mask, translation, rotation, scale, anchor, out_color, out_bounds)
        =~= p1 + p2) by {
        reveal_strlit(");\nlet ");
        reveal_strlit(");\n");
        reveal_strlit("let ");
    }
    assert(p1 =~= let_call(out_color, "filter_within_mask"@, a1)) by {
        reveal_strlit(" = ");
        reveal_strlit("(");
        reveal_strlit(", ");
        reveal_strlit("pixel_pos");
        reveal_strlit("filter_within_mask");
        reveal_strlit(" = filter_within_mask(pixel_pos, ");
        lemma_join_args_unfold(a1);
    }
    assert(p2 =~= let_call(out_bounds, "filter_within_mask_bounds"@, a2)) by {
        reveal_strlit(" = ");
        reveal_strlit("(");
        reveal_strlit("filter_within_mask_bounds");
        reveal_strlit(" = filter_within_mask_bounds(");
        lemma_join_args_unfold(a2);
    }
}

/// `FilterWithinBoundsNode` filters the colour (input slot 0) at the pixel
/// by the bounds (slot 1), and passes the bounds on.
pub proof fn lemma_filter_within_bounds_call_arguments(
    color: Seq<char>,
    bounds: Seq<char>,
    out_color: Seq<char>,
    out_bounds: Seq<char>,
)
    ensures
        filter_within_bounds_node_code(color, bounds, out_color, out_bounds) == let_call(
            out_color,
            "filter_within_bounds"@,
            seq!["pixel_pos"@, color, bounds],
        ) + "let "@ + out_bounds + " = "@ + bounds + ";\n"@,
{
    reveal_strlit("let ");
    reveal_strlit(" = ");
    reveal_strlit("(");
    reveal_strlit(", ");
    reveal_strlit(");\n");
    reveal_strlit(";\n");
    reveal_strlit("pixel_pos");
    reveal_strlit("filter_within_bounds");
    reveal_strlit(" = filter_within_bounds(pixel_pos, ");
    reveal_strlit(");\nlet ");
    let a = seq!["pixel_pos"@, color, bounds];
    lemma_join_args_unfold(a);
    assert(filter_within_bounds_node_code(color, bounds, out_color, out_bounds) =~= let_call(
        out_color,
        "filter_within_bounds"@,
        a,
    ) + "let "@ + out_bounds + " = "@ + bounds + ";\n"@);
}

/// `EllipticalMaskNode` computes the mask from its four inputs in slot
/// order, then reads its value and its bounds.
pub proof fn lemma_elliptical_mask_call_arguments(
    i0: Seq<char>,
    i1: Seq<char>,
    i2: Seq<char>,
    i3: Seq<char>,
    out_value: Seq<char>,
    out_bounds: Seq<char>,
    mask: Seq<char>,
)
    ensures
        elliptical_mask_node_code(i0, i1, i2, i3, out_value, out_bounds, mask) == let_call(
            mask,
            "elliptical_mask"@,
            seq![i0, i1, i2, i3],
        ) + "let "@ + out_value + " = "@ + mask + ".value;\n"@ + "let "@ + out_bounds + " = "@ + mask
            + ".bounds;\n"@,
{
    reveal_strlit("let ");
    reveal_strlit(" = ");
    reveal_strlit("(");
    reveal_strlit(", ");
    reveal_strlit(");\n");
    reveal_strlit(".value;\n");
    reveal_strlit(".bounds;\n");
    reveal_strlit("elliptical_mask");
    reveal_strlit(" = elliptical_mask(");
    reveal_strlit(");\nlet ");
    reveal_strlit(".value;\nlet ");
    let a = seq![i0, i1, i2, i3];
    lemma_join_args_unfold(a);
    assert(elliptical_mask_node_code(i0, i1, i2, i3, out_value, out_bounds, mask) =~= let_call(
        mask,
        "elliptical_mask"@,
        a,
    ) + "let "@ + out_value + " = "@ + mask + ".value;\n"@ + "let "@ + out_bounds + " = "@ + mask
        + ".bounds;\n"@);
}

} // verus!
