//! The tool by which the agent makes images: what is asked for, and which
//! model makes it.
use vstd::prelude::*;

use crate::config_tool::{failure, ToolDef, ToolOutput};
use crate::json::{json_list, json_string, list_member, opt_views, string_member};
use crate::session::{hyphenated, uuid_text, KindView, SessionKind, TrustLevel};
use crate::text::{
    cat2, cat3, cat4, chars_of, drop_leading, drop_trailing, opt_str_view, opt_view, part,
    same_text, string_of, trim_end_class, trim_start_class, trim_text, trimmed, views, CharClass,
};

verus! {

pub const IMAGE_DESCRIPTION: &'static str = "Generate or edit images with a configured image-capable model. Supports direct Gemini providers and OpenAI-compatible image models such as OpenRouter-hosted Gemini. Saves generated files in the workspace and returns output paths.";

pub const IMAGE_SCHEMA: &'static str = "{\"type\":\"object\",\"properties\":{\"prompt\":{\"type\":\"string\",\"description\":\"Prompt describing the image to generate or the edit to perform.\"},\"model\":{\"type\":\"string\",\"description\":\"Optional configured model id. Defaults to the current session model when it supports image output.\"},\"reference_paths\":{\"type\":\"array\",\"items\":{\"type\":\"string\"},\"description\":\"Optional workspace file paths for reference images or image-to-image editing.\"},\"output_dir\":{\"type\":\"string\",\"description\":\"Optional output directory inside the workspace. Defaults to generated/images or generated/subagents/<run_id>.\"},\"file_stem\":{\"type\":\"string\",\"description\":\"Optional output filename stem. Defaults to image.\"}},\"required\":[\"prompt\"]}";

/// The longest stem of a file's name.
pub const STEM_LENGTH: usize = 48;

/// Whether a character may stand in a file's name.
pub open spec fn stem_char(c: char) -> bool {
    'a' <= c <= 'z' || 'A' <= c <= 'Z' || '0' <= c <= '9' || c == '-' || c == '_'
}

pub open spec fn safe_chars(s: Seq<char>) -> Seq<char> {
    s.map(
        |i: int, c: char|
            if stem_char(c) {
                c
            } else {
                '-'
            },
    )
}

pub open spec fn without_dashes(s: Seq<char>) -> Seq<char> {
    drop_trailing(drop_leading(s, CharClass::Only('-')), CharClass::Only('-'))
}

/// A text as the stem of a file's name: other characters than letters, digits,
/// dashes and underscores become dashes, none of them at an edge.
pub open spec fn safe_stem(s: Seq<char>) -> Seq<char> {
    let t = without_dashes(safe_chars(s));
    if t.len() == 0 {
        "image"@
    } else if t.len() <= STEM_LENGTH {
        t
    } else {
        t.take(STEM_LENGTH as int)
    }
}

pub fn sanitize_file_stem(input: &str) -> (r: String)
    ensures
        r@ == safe_stem(input@),
{
    let chars = chars_of(input);
    let mut safe: Vec<char> = Vec::new();
    for i in 0..chars.len()
        invariant
            safe@.len() == i,
            forall|j: int| 0 <= j < i ==> #[trigger] safe@[j] == safe_chars(chars@)[j],
    {
        let c = chars[i];
        let ok = ('a' <= c && c <= 'z') || ('A' <= c && c <= 'Z') || ('0' <= c && c <= '9') || c
            == '-' || c == '_';
        safe.push(
            if ok {
                c
            } else {
                '-'
            },
        );
    }
    assert(safe@ =~= safe_chars(input@));
    let a = trim_start_class(safe.as_slice(), CharClass::Only('-'));
    let b = trim_end_class(a.as_slice(), CharClass::Only('-'));
    if b.len() == 0 {
        "image".to_owned()
    } else if b.len() <= STEM_LENGTH {
        string_of(b.as_slice())
    } else {
        let head = part(b.as_slice(), 0, STEM_LENGTH);
        assert(head@ =~= b@.take(STEM_LENGTH as int));
        string_of(head.as_slice())
    }
}

/// Where images go unless something else is asked for.
pub open spec fn usual_output_dir(kind: KindView) -> Seq<char> {
    match kind {
        KindView::Subagent(run_id) => "generated/subagents/"@ + hyphenated(run_id),
        _ => "generated/images"@,
    }
}

pub fn default_output_dir(session_kind: &SessionKind) -> (r: String)
    ensures
        r@ == usual_output_dir(session_kind@),
{
    match session_kind {
        SessionKind::Subagent(run_id) => {
            let id = uuid_text(*run_id);
            cat2("generated/subagents/", id.as_str())
        },
        _ => "generated/images".to_owned(),
    }
}

/// A model that a provider offers, and whether it makes images.
#[derive(Clone, Debug, PartialEq, Eq)]
pub struct CandidateModel {
    pub id: String,
    pub image_output: bool,
}

/// The models, of those of a list, that make images.
pub open spec fn image_models(models: Seq<CandidateModel>, n: int) -> Seq<Seq<char>>
    decreases n,
{
    if n <= 0 {
        Seq::empty()
    } else {
        let before = image_models(models, n - 1);
        if models[n - 1].image_output {
            before.push(models[n - 1].id@)
        } else {
            before
        }
    }
}

/// The models, of all that the providers offer in turn, that make images.
pub fn configured_image_models(models: &Vec<CandidateModel>) -> (r: Vec<String>)
    ensures
        views(r@) == image_models(models@, models@.len() as int),
{
    let mut out: Vec<String> = Vec::new();
    assert(views(out@) =~= Seq::<Seq<char>>::empty());
    for i in 0..models.len()
        invariant
            views(out@) == image_models(models@, i as int),
    {
        if models[i].image_output {
            let ghost was = out@;
            out.push(models[i].id.clone());
            assert(views(out@) =~= views(was).push(models@[i as int].id@));
        }
    }
    out
}

/// The tools that are offered: the one, where some model makes images.
pub fn image_tools(models: &Vec<CandidateModel>) -> (r: Vec<ToolDef>)
    ensures
        r@.len() == (if image_models(models@, models@.len() as int).len() > 0 {
            1int
        } else {
            0
        }),
        r@.len() > 0 ==> r@[0].name@ == "image_generate"@ && r@[0].description@
            == IMAGE_DESCRIPTION@ && r@[0].parameters@ == IMAGE_SCHEMA@,
{
    let found = configured_image_models(models);
    assert(views(found@).len() == found@.len());
    if found.len() > 0 {
        vec![
            ToolDef {
                name: "image_generate",
                description: IMAGE_DESCRIPTION,
                parameters: IMAGE_SCHEMA,
            },
        ]
    } else {
        Vec::new()
    }
}

pub const NO_IMAGE_MODEL: &'static str = "no configured models support image output";

pub const SEVERAL_IMAGE_MODELS: &'static str = "multiple image-capable models are configured; pass the 'model' parameter explicitly";

/// The model that makes an image: the one asked for, else the session's own
/// where it makes images, else the only one that does.
pub open spec fn target_model(
    requested: Option<Seq<char>>,
    current: Option<Seq<char>>,
    current_makes_images: bool,
    images: Seq<Seq<char>>,
) -> Result<Seq<char>, Seq<char>> {
    match requested {
        Some(m) => Ok(m),
        None => if current is Some && current_makes_images {
            Ok(current->0)
        } else if images.len() == 0 {
            Err(NO_IMAGE_MODEL@)
        } else if images.len() == 1 {
            Ok(images[0])
        } else {
            Err(SEVERAL_IMAGE_MODELS@)
        },
    }
}

pub fn resolve_target_model(
    requested: Option<&str>,
    current: Option<&str>,
    current_makes_images: bool,
    models: &Vec<CandidateModel>,
) -> (r: Result<String, &'static str>)
    ensures
        match r {
            Ok(m) => target_model(
                opt_str_view(requested),
                opt_str_view(current),
                current_makes_images,
                image_models(models@, models@.len() as int),
            ) == Ok::<Seq<char>, Seq<char>>(m@),
            Err(e) => target_model(
                opt_str_view(requested),
                opt_str_view(current),
                current_makes_images,
                image_models(models@, models@.len() as int),
            ) == Err::<Seq<char>, Seq<char>>(e@),
        },
{
    if let Some(m) = requested {
        return Ok(m.to_owned());
    }
    if let Some(m) = current {
        if current_makes_images {
            return Ok(m.to_owned());
        }
    }
    let images = configured_image_models(models);
    assert(views(images@).len() == images@.len());
    if images.len() == 0 {
        Err(NO_IMAGE_MODEL)
    } else if images.len() == 1 {
        assert(views(images@)[0] == images@[0]@);
        Ok(images[0].clone())
    } else {
        Err(SEVERAL_IMAGE_MODELS)
    }
}

/// The argument that a member stands for, where it does.
pub open spec fn usable(member: Option<Seq<char>>) -> Option<Seq<char>> {
    match member {
        Some(s) => if trimmed(s).len() > 0 {
            Some(trimmed(s))
        } else {
            None
        },
        None => None,
    }
}

/// Takes what was read of a member: trimmed, and nothing where it is blank.
pub fn take_argument(member: Option<String>) -> (r: Option<String>)
    ensures
        opt_view(r) == usable(opt_view(member)),
{
    match member {
        Some(s) => {
            let t = trim_text(s.as_str());
            if t.as_str().is_empty() {
                None
            } else {
                Some(t)
            }
        },
        None => None,
    }
}

/// The paths among the first `n` items of a list.
pub open spec fn usable_items(items: Seq<Option<Seq<char>>>, n: int) -> Seq<Seq<char>>
    decreases n,
{
    if n <= 0 {
        Seq::empty()
    } else {
        let before = usable_items(items, n - 1);
        match usable(items[n - 1]) {
            Some(s) => before.push(s),
            None => before,
        }
    }
}

/// Takes what was read of a list: its texts, trimmed, without the blank ones.
pub fn take_items(items: &Vec<Option<String>>) -> (r: Vec<String>)
    ensures
        views(r@) == usable_items(opt_views(items@), items@.len() as int),
{
    let mut out: Vec<String> = Vec::new();
    assert(views(out@) =~= Seq::<Seq<char>>::empty());
    for i in 0..items.len()
        invariant
            views(out@) == usable_items(opt_views(items@), i as int),
    {
        assert(opt_views(items@)[i as int] == opt_view(items@[i as int]));
        if let Some(t) = take_argument(crate::text::copy_opt(&items[i])) {
            let ghost was = out@;
            out.push(t);
            assert(views(out@) =~= views(was).push(t@));
        }
    }
    out
}

/// An image that is asked for.
#[derive(Clone, Debug, PartialEq, Eq)]
pub struct ImageRequest {
    pub prompt: String,
    pub model: Option<String>,
    pub output_dir: String,
    pub file_stem: String,
    pub reference_paths: Vec<String>,
}

#[verifier::ext_equal]
pub struct ImageRequestView {
    pub prompt: Seq<char>,
    pub model: Option<Seq<char>>,
    pub output_dir: Seq<char>,
    pub file_stem: Seq<char>,
    pub reference_paths: Seq<Seq<char>>,
}

impl View for ImageRequest {
    type V = ImageRequestView;

    open spec fn view(&self) -> ImageRequestView {
        ImageRequestView {
            prompt: self.prompt@,
            model: opt_view(self.model),
            output_dir: self.output_dir@,
            file_stem: self.file_stem@,
            reference_paths: views(self.reference_paths@),
        }
    }
}

/// How a call of the tool begins.
#[derive(Clone, Debug, PartialEq, Eq)]
pub enum ImageCall {
    /// It is answered at once.
    Refused { output: ToolOutput },
    /// It is not a call.
    Malformed { error: &'static str },
    Generate { request: ImageRequest },
}

/// The arguments of a call as they were read: each text member that is there,
/// and the items of the list.
#[derive(Clone, Debug, PartialEq, Eq)]
pub struct ImageArguments {
    pub prompt: Option<String>,
    pub model: Option<String>,
    pub output_dir: Option<String>,
    pub file_stem: Option<String>,
    pub reference_paths: Option<Vec<Option<String>>>,
}

#[verifier::ext_equal]
pub struct ImageArgumentsView {
    pub prompt: Option<Seq<char>>,
    pub model: Option<Seq<char>>,
    pub output_dir: Option<Seq<char>>,
    pub file_stem: Option<Seq<char>>,
    pub reference_paths: Option<Seq<Option<Seq<char>>>>,
}

impl View for ImageArguments {
    type V = ImageArgumentsView;

    open spec fn view(&self) -> ImageArgumentsView {
        ImageArgumentsView {
            prompt: opt_view(self.prompt),
            model: opt_view(self.model),
            output_dir: opt_view(self.output_dir),
            file_stem: opt_view(self.file_stem),
            reference_paths: match self.reference_paths {
                Some(items) => Some(opt_views(items@)),
                None => None,
            },
        }
    }
}

/// What a call asks for that has a prompt.
pub open spec fn requested_image(
    prompt: Seq<char>,
    arguments: ImageArgumentsView,
    kind: KindView,
) -> ImageRequestView {
    ImageRequestView {
        prompt,
        model: usable(arguments.model),
        output_dir: match usable(arguments.output_dir) {
            Some(d) => d,
            None => usual_output_dir(kind),
        },
        file_stem: match usable(arguments.file_stem) {
            Some(s) => safe_stem(s),
            None => "image"@,
        },
        reference_paths: match arguments.reference_paths {
            Some(items) => usable_items(items, items.len() as int),
            None => Seq::empty(),
        },
    }
}

/// Whether a call is what its arguments and its caller make it.
pub open spec fn is_image_call(
    r: ImageCall,
    arguments: ImageArgumentsView,
    trust: TrustLevel,
    kind: KindView,
) -> bool {
    if trust.rank() > TrustLevel::Inner.rank() {
        r matches ImageCall::Refused { output } && output@ == failure(
            "image_generate tool requires Full or Inner trust level"@,
        )
    } else {
        match usable(arguments.prompt) {
            None => r matches ImageCall::Malformed { error } && error@
                == "missing 'prompt' parameter"@,
            Some(prompt) => r matches ImageCall::Generate { request } && request@
                == requested_image(prompt, arguments, kind),
        }
    }
}

/// Decides what a call is, given its arguments.
pub fn plan_image_call(arguments: ImageArguments, trust: TrustLevel, kind: &SessionKind) -> (r:
    ImageCall)
    ensures
        is_image_call(r, arguments@, trust, kind@),
{
    if trust.level() > TrustLevel::Inner.level() {
        return ImageCall::Refused {
            output: ToolOutput::error(
                "image_generate tool requires Full or Inner trust level".to_owned(),
            ),
        };
    }
    let prompt = match take_argument(arguments.prompt) {
        Some(p) => p,
        None => return ImageCall::Malformed { error: "missing 'prompt' parameter" },
    };
    let model = take_argument(arguments.model);
    let output_dir = match take_argument(arguments.output_dir) {
        Some(d) => d,
        None => default_output_dir(kind),
    };
    let file_stem = match take_argument(arguments.file_stem) {
        Some(s) => sanitize_file_stem(s.as_str()),
        None => "image".to_owned(),
    };
    let reference_paths = match &arguments.reference_paths {
        Some(items) => {
            assert(opt_views(items@).len() == items@.len());
            take_items(items)
        },
        None => {
            let none: Vec<String> = Vec::new();
            assert(views(none@) =~= Seq::<Seq<char>>::empty());
            none
        },
    };
    let request = ImageRequest { prompt, model, output_dir, file_stem, reference_paths };
    assert(request@ =~= requested_image(prompt@, arguments@, kind@));
    ImageCall::Generate { request }
}

/// The arguments that a JSON text holds.
pub open spec fn image_arguments(text: Seq<char>) -> ImageArgumentsView {
    ImageArgumentsView {
        prompt: json_string(text, "prompt"@),
        model: json_string(text, "model"@),
        output_dir: json_string(text, "output_dir"@),
        file_stem: json_string(text, "file_stem"@),
        reference_paths: json_list(text, "reference_paths"@),
    }
}

/// Reads a call of the tool.
pub fn read_image_call(arguments: &str, trust: TrustLevel, kind: &SessionKind) -> (r: ImageCall)
    ensures
        is_image_call(r, image_arguments(arguments@), trust, kind@),
{
    let read = ImageArguments {
        prompt: string_member(arguments, "prompt"),
        model: string_member(arguments, "model"),
        output_dir: string_member(arguments, "output_dir"),
        file_stem: string_member(arguments, "file_stem"),
        reference_paths: list_member(arguments, "reference_paths"),
    };
    assert(read@ =~= image_arguments(arguments@));
    plan_image_call(read, trust, kind)
}

/// What a model can do, as far as the tool asks.
#[derive(Clone, Copy, Debug, PartialEq, Eq)]
pub struct ImageCapabilities {
    pub subagent_only: bool,
    pub image_output: bool,
}

/// Why a model cannot be used.
pub open spec fn model_fault(
    model: Seq<char>,
    capabilities: Option<ImageCapabilities>,
    kind: KindView,
    configured: bool,
) -> Option<Seq<char>> {
    match capabilities {
        None => Some("unknown image model: "@ + model),
        Some(c) => if c.subagent_only && !(kind is Subagent) {
            Some("model '"@ + model + "' is subagent-only; use it from a subagent profile"@)
        } else if !c.image_output {
            Some("model '"@ + model + "' does not support image output"@)
        } else if !configured {
            Some("model '"@ + model + "' is not configured"@)
        } else {
            None
        },
    }
}

/// Decides whether a model can be used.
pub fn check_image_model(
    model: &str,
    capabilities: Option<ImageCapabilities>,
    kind: &SessionKind,
    configured: bool,
) -> (r: Option<String>)
    ensures
        opt_view(r) == model_fault(model@, capabilities, kind@, configured),
{
    let c = match capabilities {
        Some(c) => c,
        None => return Some(cat2("unknown image model: ", model)),
    };
    let in_subagent = match kind {
        SessionKind::Subagent(_) => true,
        _ => false,
    };
    if c.subagent_only && !in_subagent {
        return Some(cat3("model '", model, "' is subagent-only; use it from a subagent profile"));
    }
    if !c.image_output {
        return Some(cat3("model '", model, "' does not support image output"));
    }
    if !configured {
        return Some(cat3("model '", model, "' is not configured"));
    }
    None
}

/// A kind of provider.
#[derive(Clone, Copy, Debug, PartialEq, Eq, Structural)]
pub enum ImageProvider {
    Gemini,
    OpenAiCompatible,
    Other,
}

/// Why a provider cannot make images, where it cannot.
pub fn check_image_provider(provider: ImageProvider, model: &str, provider_name: &str) -> (r: Option<
    String,
>)
    ensures
        opt_view(r) == (if provider == ImageProvider::Other {
            Some(
                "image_generate currently supports only gemini and openai-compatible providers; '"@
                    + model@ + "' is backed by "@ + provider_name@,
            )
        } else {
            None
        }),
{
    match provider {
        ImageProvider::Other => Some(
            cat4(
                "image_generate currently supports only gemini and openai-compatible providers; '",
                model,
                "' is backed by ",
                provider_name,
            ),
        ),
        _ => None,
    }
}

/// The answer to a call of a tool of another name.
pub fn unknown_image_tool(name: &str) -> (r: Option<ToolOutput>)
    ensures
        match r {
            Some(o) => name@ != "image_generate"@ && o@ == failure("unknown tool: "@ + name@),
            None => name@ == "image_generate"@,
        },
{
    if same_text(name, "image_generate") {
        None
    } else {
        Some(ToolOutput::error(cat2("unknown tool: ", name)))
    }
}

/// The stem of a file's name is made of letters, digits, dashes and
/// underscores, is not empty and not too long.
pub proof fn stems_are_safe(s: Seq<char>)
    ensures
        0 < safe_stem(s).len() <= STEM_LENGTH,
        forall|i: int| 0 <= i < safe_stem(s).len() ==> stem_char(#[trigger] safe_stem(s)[i]),
{
    let all = safe_chars(s);
    let a = drop_leading(all, CharClass::Only('-'));
    let n = crate::text::drop_leading_shape(all, CharClass::Only('-'));
    let m = crate::text::drop_trailing_shape(a, CharClass::Only('-'));
    reveal_strlit("image");
    assert("image"@.len() == 5);
    assert forall|i: int| 0 <= i < safe_stem(s).len() implies stem_char(
        #[trigger] safe_stem(s)[i],
    ) by {
        if without_dashes(all).len() > 0 {
            assert(safe_stem(s)[i] == without_dashes(all)[i]);
            assert(without_dashes(all)[i] == a[i]);
            assert(a[i] == all[n + i]);
        }
    }
}

} // verus!
