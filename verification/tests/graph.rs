use lapiz::graph::{
    BlendModeNodeState, BlendWithInputNode, BrushMainGraphData, BrushRequiredSpacingGraphData,
    BrushStrokePostprocessGraphData, CodeGenContext, CodeGenError, CurrentPixelColorNode,
    DrawDirectionNode, EllipticalMaskNode, FilterWithinMaskNode, ForegroundColorNode,
    InitialPenPositionNode, OutputColorNode, PasteTextureMode, PasteTextureNode,
    PasteTextureNodeState, PenPositionNode, SlotType, StrokeBoundsNode,
};

fn ctx(inputs: &[&str], outputs: &[&str]) -> CodeGenContext {
    CodeGenContext {
        inputs: inputs.iter().map(|s| s.to_string()).collect(),
        outputs: outputs.iter().map(|s| s.to_string()).collect(),
        fresh_ident: "tmp_0".to_string(),
    }
}

#[test]
fn pen_position_code_reads_pen_input() {
    let code = PenPositionNode
        .generate_code::<BrushMainGraphData>(&ctx(&[], &["v1"]))
        .unwrap();
    assert_eq!(code, "let v1 = graph_input.position;");
    assert_eq!(PenPositionNode.id(), "pen_position_node");
    let outputs = PenPositionNode.create_outputs();
    assert_eq!(outputs.len(), 1);
    assert_eq!(outputs[0].name, "position");
    assert_eq!(outputs[0].ty, SlotType::Vec2F);
}

#[test]
fn initial_pen_position_code_reads_initial_input() {
    let code = InitialPenPositionNode
        .generate_code::<BrushRequiredSpacingGraphData>(&ctx(&[], &["p"]))
        .unwrap();
    assert_eq!(code, "let p = initial_pen_input.position;");
}

#[test]
fn draw_direction_code_binds_both_outputs() {
    let code = DrawDirectionNode
        .generate_code::<BrushMainGraphData>(&ctx(&[], &["a", "d"]))
        .unwrap();
    assert_eq!(
        code,
        "let a = graph_input.draw_direction_angle;\nlet d = graph_input.draw_direction_vec;\n"
    );
    assert_eq!(
        DrawDirectionNode
            .generate_code::<BrushMainGraphData>(&ctx(&[], &["a"]))
            .unwrap_err(),
        CodeGenError::MissingOutput(1)
    );
}

#[test]
fn filter_within_mask_code_orders_arguments() {
    let code = FilterWithinMaskNode
        .generate_code(&ctx(&["c", "m", "t", "r", "s", "a"], &["o", "b"]))
        .unwrap();
    assert_eq!(
        code,
        "let o = filter_within_mask(pixel_pos, c, m, s, r, t, a);\nlet b = filter_within_mask_bounds(m, s, r, t, a);\n"
    );
    assert_eq!(
        FilterWithinMaskNode
            .generate_code(&ctx(&["c", "m"], &[]))
            .unwrap_err(),
        CodeGenError::MissingInput(2)
    );
    assert_eq!(FilterWithinMaskNode.create_inputs().len(), 6);
}

#[test]
fn current_pixel_color_fetches_output_first() {
    assert_eq!(
        CurrentPixelColorNode.generate_code(&ctx(&[], &[])).unwrap_err(),
        CodeGenError::MissingOutput(0)
    );
    assert_eq!(
        CurrentPixelColorNode.generate_code(&ctx(&[], &["o"])).unwrap_err(),
        CodeGenError::MissingInput(0)
    );
    assert_eq!(
        CurrentPixelColorNode
            .generate_code(&ctx(&["pos"], &["o"]))
            .unwrap(),
        "let o = current_input_color(vec2i(pos));\n"
    );
}

#[test]
fn output_color_and_stroke_bounds_code() {
    assert_eq!(
        OutputColorNode.generate_code(&ctx(&["col"], &[])).unwrap(),
        "set_output_color(pixel_pos, col);\n"
    );
    assert_eq!(
        StrokeBoundsNode.generate_code(&ctx(&[], &["b"])).unwrap(),
        "let b = Rect(vec2f(graph_input.accumulated_pixel_bound.min), vec2f(graph_input.accumulated_pixel_bound.max));"
    );
}

#[test]
fn elliptical_mask_uses_fresh_identifier() {
    assert_eq!(
        EllipticalMaskNode
            .generate_code(&ctx(&["p", "c", "r", "a"], &["v", "b"]))
            .unwrap(),
        "let tmp_0 = elliptical_mask(p, c, r, a);\nlet v = tmp_0.value;\nlet b = tmp_0.bounds;\n"
    );
}

#[test]
fn paste_texture_code_follows_mode() {
    let state = PasteTextureNodeState::default_state();
    assert_eq!(state.mode, PasteTextureMode::Wrap);
    let c = ctx(&["tex", "t", "r", "s", "a"], &["o"]);
    assert_eq!(
        PasteTextureNode.generate_code(&state, &c).unwrap(),
        "let o = sample_transformed_local_texture_wrap(tex, pixel_posf, s, r, t, a);\n"
    );
    let clamp = PasteTextureNodeState { mode: PasteTextureMode::Clamp };
    assert_eq!(
        PasteTextureNode.generate_code(&clamp, &c).unwrap(),
        "let o = sample_transformed_local_texture_clamp(tex, pixel_posf, s, r, t, a);\n"
    );
    assert_eq!(PasteTextureMode::Clamp.name(), "clamp");
    assert_eq!(PasteTextureMode::all(), vec![PasteTextureMode::Clamp, PasteTextureMode::Wrap]);
}

#[test]
fn blend_with_input_code_uses_blend_function() {
    let state = BlendModeNodeState { blend_function: "blend_normal".to_string() };
    assert_eq!(
        BlendWithInputNode
            .generate_code(&state, &ctx(&["c", "o"], &["out"]))
            .unwrap(),
        "let out = image::blend_modes::blend_normal(vec4f(c.rgb, c.a * o), current_input_color(pixel_pos));\n"
    );
}

#[test]
fn foreground_color_reads_canvas_resources() {
    assert_eq!(
        ForegroundColorNode
            .generate_code::<BrushStrokePostprocessGraphData>(&ctx(&[], &["fg"]))
            .unwrap(),
        "let fg = canvas_resources.foreground_color;\n"
    );
}
