use coop_gateway::image_tools::{
    check_image_model, check_image_provider, configured_image_models, default_output_dir,
    image_tools, plan_image_call, read_image_call, resolve_target_model, sanitize_file_stem,
    take_argument, take_items, unknown_image_tool, CandidateModel, ImageArguments, ImageCall,
    ImageCapabilities, ImageProvider,
};
use coop_gateway::session::{SessionKind, TrustLevel};

#[test]
fn default_output_dir_uses_run_id_for_subagents() {
    let run_id = uuid::Uuid::nil();
    assert_eq!(
        default_output_dir(&SessionKind::Subagent(run_id.as_u128())),
        format!("generated/subagents/{run_id}")
    );
    assert_eq!(default_output_dir(&SessionKind::Main), "generated/images");
}

#[test]
fn sanitize_file_stem_replaces_unsafe_chars() {
    assert_eq!(sanitize_file_stem("hello world!.png"), "hello-world--png");
}

#[test]
fn blank_file_stems_are_replaced() {
    assert_eq!(sanitize_file_stem(""), "image");
    assert_eq!(sanitize_file_stem("..."), "image");
    assert_eq!(sanitize_file_stem("a_b-C9"), "a_b-C9");
    assert_eq!(sanitize_file_stem("../up"), "up");
    assert_eq!(sanitize_file_stem(&"x".repeat(50)), "x".repeat(48));
    assert_eq!(unknown_image_tool("image_generate"), None);
    assert_eq!(unknown_image_tool("draw").unwrap().content, "unknown tool: draw");
}

fn model(id: &str, image_output: bool) -> CandidateModel {
    CandidateModel { id: id.to_owned(), image_output }
}

#[test]
fn tool_is_hidden_without_image_models() {
    assert!(image_tools(&vec![model("gpt-5.4", false)]).is_empty());
    assert_eq!(image_tools(&vec![model("gemini", true)])[0].name, "image_generate");
}

#[test]
fn current_model_is_used_when_it_supports_image_output() {
    let id = "gemini-2.0-flash-preview-image-generation";
    let model = resolve_target_model(None, Some(id), true, &vec![model(id, true)]).unwrap();
    assert_eq!(model, "gemini-2.0-flash-preview-image-generation");
}

#[test]
fn target_model_must_be_clear() {
    let one = vec![model("a", false), model("b", true)];
    let two = vec![model("a", true), model("b", true)];
    assert_eq!(resolve_target_model(Some("c"), Some("a"), true, &two).unwrap(), "c");
    assert_eq!(resolve_target_model(None, Some("a"), false, &one).unwrap(), "b");
    assert!(resolve_target_model(None, Some("a"), false, &two).is_err());
    assert!(resolve_target_model(None, None, false, &vec![model("a", false)]).is_err());
    assert_eq!(configured_image_models(&two), vec!["a".to_owned(), "b".to_owned()]);
}

#[test]
fn image_calls_are_read() {
    let text = r#"{"prompt":" draw ","file_stem":"my pic","reference_paths":["a.png"," ",7," b "]}"#;
    let ImageCall::Generate { request } =
        read_image_call(text, TrustLevel::Full, &SessionKind::Main)
    else {
        panic!("expected a request");
    };
    assert_eq!(request.prompt, "draw");
    assert_eq!(request.model, None);
    assert_eq!(request.output_dir, "generated/images");
    assert_eq!(request.file_stem, "my-pic");
    assert_eq!(request.reference_paths, vec!["a.png".to_owned(), "b".to_owned()]);
    assert!(matches!(
        read_image_call("{}", TrustLevel::Full, &SessionKind::Main),
        ImageCall::Malformed { .. }
    ));
    assert!(matches!(
        read_image_call(text, TrustLevel::Public, &SessionKind::Main),
        ImageCall::Refused { .. }
    ));
}

#[test]
fn image_calls_are_planned_from_their_arguments() {
    let arguments = ImageArguments {
        prompt: Some("draw".to_owned()),
        model: Some(" m ".to_owned()),
        output_dir: Some("out".to_owned()),
        file_stem: None,
        reference_paths: None,
    };
    let ImageCall::Generate { request } =
        plan_image_call(arguments, TrustLevel::Owner, &SessionKind::Main)
    else {
        panic!("expected a request");
    };
    assert_eq!(request.model, Some("m".to_owned()));
    assert_eq!(request.output_dir, "out");
    assert_eq!(request.file_stem, "image");
    assert!(request.reference_paths.is_empty());
    assert_eq!(take_argument(Some("  ".to_owned())), None);
    assert_eq!(take_items(&vec![None, Some(" x ".to_owned())]), vec!["x".to_owned()]);
}

#[test]
fn image_models_are_checked() {
    let able = Some(ImageCapabilities { subagent_only: false, image_output: true });
    let subagent = Some(ImageCapabilities { subagent_only: true, image_output: true });
    let blind = Some(ImageCapabilities { subagent_only: false, image_output: false });
    let main = SessionKind::Main;
    let fault = |c, kind, configured| check_image_model("m", c, kind, configured);
    assert_eq!(fault(able, &main, true), None);
    assert_eq!(fault(subagent, &SessionKind::Subagent(1), true), None);
    assert_eq!(fault(None, &main, true).unwrap(), "unknown image model: m");
    assert!(fault(subagent, &main, true).unwrap().contains("subagent-only"));
    assert!(fault(blind, &main, true).unwrap().contains("does not support image output"));
    assert!(fault(able, &main, false).unwrap().contains("is not configured"));
    assert_eq!(check_image_provider(ImageProvider::Gemini, "m", "p"), None);
    assert_eq!(check_image_provider(ImageProvider::OpenAiCompatible, "m", "p"), None);
    assert!(check_image_provider(ImageProvider::Other, "m", "p").unwrap().ends_with("is backed by p"));
}
