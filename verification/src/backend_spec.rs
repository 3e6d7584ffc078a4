//! What a managed inference backend is started with: the operator's row, the
//! service specification read out of it, and the flags and mounts the server
//! adds on its own.

use vstd::prelude::*;
use crate::json::{the_first_member_counts, JsonMember, JsonNumber, JsonValue};
use crate::text::{
    ascii_lowercase, contains, eq_ignore_ascii_case, has_text, opt_view, same, starts_with,
    strip_prefix, texts, to_ascii_lowercase, trim, trimmed,
};

verus! {

/// What a backend is for.
#[derive(Clone, Copy, Debug, PartialEq, Eq, Structural)]
pub enum BackendPurpose {
    Standard,
    Small,
    VoiceStt,
    VoiceTts,
    Vision,
}

/// Who runs a backend.
#[derive(Clone, Copy, Debug, PartialEq, Eq, Structural)]
pub enum BackendMode {
    Managed,
    External,
}

/// Where a managed service runs.
#[derive(Clone, Copy, Debug, PartialEq, Eq, Structural)]
pub enum ServiceRuntime {
    Docker,
    Native,
}

/// Which device-passthrough strategy a service needs.
#[derive(Clone, Copy, Debug, PartialEq, Eq, Structural)]
pub enum GpuVendor {
    Nvidia,
    Intel,
    Amd,
    Apple,
}

/// One configured backend.
pub struct BackendRow {
    pub purpose: BackendPurpose,
    pub inference_backend: String,
    pub model_spec_json: JsonValue,
    pub gpu_id: Option<String>,
    pub endpoint: Option<String>,
    pub notes: Option<String>,
    pub reasoning_enabled: bool,
    pub mode: BackendMode,
    pub created_at: i64,
    pub updated_at: i64,
}

/// A host directory made visible inside a service.
#[derive(Debug)]
pub struct HostMount {
    pub host_path: String,
    pub container_path: String,
    pub read_only: bool,
}

/// Everything a controller needs to start a service.
#[derive(Debug)]
pub struct ServiceSpec {
    pub name: String,
    pub image: String,
    pub args: Vec<String>,
    pub entrypoint: Option<String>,
    pub env: Vec<(String, String)>,
    pub gpu_id: Option<String>,
    pub gpu_vendor: Option<GpuVendor>,
    pub mounts: Vec<HostMount>,
    pub host_port: u16,
    pub container_port: u16,
    pub runtime: ServiceRuntime,
    pub binary_hint: String,
}

/// The model of a `HostMount`.
pub struct MountModel {
    pub host_path: Seq<char>,
    pub container_path: Seq<char>,
    pub read_only: bool,
}

impl View for HostMount {
    type V = MountModel;

    open spec fn view(&self) -> MountModel {
        MountModel {
            host_path: self.host_path@,
            container_path: self.container_path@,
            read_only: self.read_only,
        }
    }
}

/// The model of a `ServiceSpec`.
#[verifier::ext_equal]
pub struct SpecModel {
    pub name: Seq<char>,
    pub image: Seq<char>,
    pub args: Seq<Seq<char>>,
    pub entrypoint: Option<Seq<char>>,
    pub env: Seq<(Seq<char>, Seq<char>)>,
    pub gpu_id: Option<Seq<char>>,
    pub gpu_vendor: Option<GpuVendor>,
    pub mounts: Seq<MountModel>,
    pub host_port: u16,
    pub container_port: u16,
    pub runtime: ServiceRuntime,
    pub binary_hint: Seq<char>,
}

/// The texts of a vector of environment pairs.
pub open spec fn pairs(v: Seq<(String, String)>) -> Seq<(Seq<char>, Seq<char>)> {
    v.map_values(|p: (String, String)| (p.0@, p.1@))
}

/// The models of a vector of mounts.
pub open spec fn mount_models(v: Seq<HostMount>) -> Seq<MountModel> {
    v.map_values(|m: HostMount| m@)
}

impl View for ServiceSpec {
    type V = SpecModel;

    open spec fn view(&self) -> SpecModel {
        SpecModel {
            name: self.name@,
            image: self.image@,
            args: texts(self.args@),
            entrypoint: opt_view(self.entrypoint),
            env: pairs(self.env@),
            gpu_id: opt_view(self.gpu_id),
            gpu_vendor: self.gpu_vendor,
            mounts: mount_models(self.mounts@),
            host_port: self.host_port,
            container_port: self.container_port,
            runtime: self.runtime,
            binary_hint: self.binary_hint@,
        }
    }
}

impl Default for ServiceSpec {
    fn default() -> (r: ServiceSpec)
        ensures
            r@ == (SpecModel {
                name: Seq::empty(),
                image: Seq::empty(),
                args: Seq::empty(),
                entrypoint: None,
                env: Seq::empty(),
                gpu_id: None,
                gpu_vendor: None,
                mounts: Seq::empty(),
                host_port: 0,
                container_port: 0,
                runtime: ServiceRuntime::Docker,
                binary_hint: Seq::empty(),
            }),
    {
        let r = ServiceSpec {
            name: String::new(),
            image: String::new(),
            args: Vec::new(),
            entrypoint: None,
            env: Vec::new(),
            gpu_id: None,
            gpu_vendor: None,
            mounts: Vec::new(),
            host_port: 0,
            container_port: 0,
            runtime: ServiceRuntime::Docker,
            binary_hint: String::new(),
        };
        assert(r@.args =~= Seq::<Seq<char>>::empty());
        assert(r@.env =~= Seq::<(Seq<char>, Seq<char>)>::empty());
        assert(r@.mounts =~= Seq::<MountModel>::empty());
        r
    }
}

impl BackendPurpose {
    /// The name under which a purpose is stored and shown.
    pub open spec fn name(self) -> Seq<char> {
        match self {
            BackendPurpose::Standard => "Standard"@,
            BackendPurpose::Small => "Small"@,
            BackendPurpose::VoiceStt => "VoiceStt"@,
            BackendPurpose::VoiceTts => "VoiceTts"@,
            BackendPurpose::Vision => "Vision"@,
        }
    }

    /// The name under which a purpose is stored and shown.
    pub fn as_str(&self) -> (r: &'static str)
        ensures
            r@ == self.name(),
    {
        match self {
            BackendPurpose::Standard => "Standard",
            BackendPurpose::Small => "Small",
            BackendPurpose::VoiceStt => "VoiceStt",
            BackendPurpose::VoiceTts => "VoiceTts",
            BackendPurpose::Vision => "Vision",
        }
    }
}

/// The host port of each purpose.
pub open spec fn port_of(purpose: BackendPurpose) -> u16 {
    match purpose {
        BackendPurpose::Standard => 8101,
        BackendPurpose::Small => 8102,
        BackendPurpose::VoiceStt => 8103,
        BackendPurpose::VoiceTts => 8104,
        BackendPurpose::Vision => 8105,
    }
}

/// Per-purpose stable host port. The supervisor binds these so the runner's
/// URL does not churn across restarts; they avoid the engines' own defaults.
pub fn host_port_for(purpose: BackendPurpose) -> (port: u16)
    ensures
        port == port_of(purpose),
{
    match purpose {
        BackendPurpose::Standard => 8101,
        BackendPurpose::Small => 8102,
        BackendPurpose::VoiceStt => 8103,
        BackendPurpose::VoiceTts => 8104,
        BackendPurpose::Vision => 8105,
    }
}

/// No two purposes share a host port.
pub proof fn host_ports_are_distinct(a: BackendPurpose, b: BackendPurpose)
    ensures
        port_of(a) == port_of(b) <==> a == b,
{
}

/// No two purposes share a name.
pub proof fn purpose_names_are_distinct(a: BackendPurpose, b: BackendPurpose)
    ensures
        a.name() == b.name() <==> a == b,
{
    reveal_strlit("Standard");
    reveal_strlit("Small");
    reveal_strlit("VoiceStt");
    reveal_strlit("VoiceTts");
    reveal_strlit("Vision");
    if a != b && a.name() == b.name() {
        assert(a.name().len() == b.name().len());
        assert(a.name()[0] == b.name()[0]);
        assert(a.name()[5] == b.name()[5]);
    }
}

/// Whether an image serves with vLLM: its name says so, in any ASCII case.
pub open spec fn vllm_image(image: Seq<char>) -> bool {
    has_text(ascii_lowercase(image), "vllm"@)
}

/// Whether an image serves with vLLM.
pub fn is_vllm_image(image: &str) -> (r: bool)
    ensures
        r == vllm_image(image@),
{
    let lower: String = to_ascii_lowercase(image);
    contains(lower.as_str(), "vllm")
}

/// The value of the first `--model=` argument.
pub open spec fn joined_model_arg(args: Seq<Seq<char>>) -> Option<Seq<char>>
    decreases args.len(),
{
    if args.len() == 0 {
        None
    } else if "--model="@.is_prefix_of(args[0]) {
        Some(args[0].skip("--model="@.len() as int))
    } else {
        joined_model_arg(args.skip(1))
    }
}

/// The argument behind the first `--model`.
pub open spec fn separate_model_arg(args: Seq<Seq<char>>) -> Option<Seq<char>>
    decreases args.len(),
{
    if args.len() == 0 {
        None
    } else if args[0] == "--model"@ {
        if args.len() > 1 {
            Some(args[1])
        } else {
            None
        }
    } else {
        separate_model_arg(args.skip(1))
    }
}

/// The model an argument list names: a `--model=` argument wins over a
/// separate `--model`; empty where neither names one.
pub open spec fn model_in_args(args: Seq<Seq<char>>) -> Seq<char> {
    match joined_model_arg(args) {
        Some(m) => m,
        None => match separate_model_arg(args) {
            Some(m) => m,
            None => Seq::empty(),
        },
    }
}

/// The tool-call parser that fits a model, by markers in its name.
pub open spec fn parser_for_model(model: Seq<char>) -> Seq<char> {
    let lower = ascii_lowercase(model);
    if has_text(lower, "llama-3"@) || has_text(lower, "llama3"@) {
        "llama3_json"@
    } else if has_text(lower, "mistral"@) {
        "mistral"@
    } else if has_text(lower, "qwen3.6"@) || has_text(lower, "qwen3_6"@) {
        "qwen3_coder"@
    } else if has_text(lower, "qwen3"@) {
        "qwen3_xml"@
    } else {
        "hermes"@
    }
}

fn joined_model(args: &[String]) -> (r: Option<String>)
    ensures
        opt_view(r) == joined_model_arg(texts(args@)),
{
    let ghost all = texts(args@);
    let mut i: usize = 0;
    assert(all.skip(0) =~= all);
    while i < args.len()
        invariant
            i <= args.len(),
            all == texts(args@),
            joined_model_arg(all) == joined_model_arg(all.skip(i as int)),
        decreases args.len() - i,
    {
        assert(all.skip(i as int)[0] == args@[i as int]@);
        if let Some(rest) = strip_prefix(args[i].as_str(), "--model=") {
            return Some(rest);
        }
        assert(all.skip(i as int).skip(1) =~= all.skip(i + 1));
        i += 1;
    }
    None
}

fn separate_model(args: &[String]) -> (r: Option<String>)
    ensures
        opt_view(r) == separate_model_arg(texts(args@)),
{
    let ghost all = texts(args@);
    let mut i: usize = 0;
    assert(all.skip(0) =~= all);
    while i < args.len()
        invariant
            i <= args.len(),
            all == texts(args@),
            separate_model_arg(all) == separate_model_arg(all.skip(i as int)),
        decreases args.len() - i,
    {
        assert(all.skip(i as int)[0] == args@[i as int]@);
        if same(args[i].as_str(), "--model") {
            if i + 1 < args.len() {
                assert(all.skip(i as int)[1] == args@[i + 1]@);
                return Some(args[i + 1].clone());
            }
            return None;
        }
        assert(all.skip(i as int).skip(1) =~= all.skip(i + 1));
        i += 1;
    }
    None
}

/// Picks a tool-call parser by the model named in `args`. Qwen3 and Qwen3.5
/// emit XML-shaped calls, Qwen3.6 the coder shape; `hermes` is the default.
pub fn default_tool_parser_for_args(args: &[String]) -> (r: &'static str)
    ensures
        r@ == parser_for_model(model_in_args(texts(args@))),
{
    let model: String = match joined_model(args) {
        Some(m) => m,
        None => match separate_model(args) {
            Some(m) => m,
            None => String::new(),
        },
    };
    let lower: String = to_ascii_lowercase(model.as_str());
    let l: &str = lower.as_str();
    if contains(l, "llama-3") || contains(l, "llama3") {
        "llama3_json"
    } else if contains(l, "mistral") {
        "mistral"
    } else if contains(l, "qwen3.6") || contains(l, "qwen3_6") {
        "qwen3_coder"
    } else if contains(l, "qwen3") {
        "qwen3_xml"
    } else {
        "hermes"
    }
}

/// Some argument is `flag`, or `flag` with a value behind `=`.
pub open spec fn has_flag(args: Seq<Seq<char>>, flag: Seq<char>, with_value: Seq<char>) -> bool {
    exists|i: int|
        0 <= i < args.len() && (#[trigger] args[i] == flag || with_value.is_prefix_of(args[i]))
}

/// The flags added to a vLLM service whose arguments are `args`: each of the
/// three that the operator did not set.
pub open spec fn added_tool_args(image: Seq<char>, args: Seq<Seq<char>>) -> Seq<Seq<char>> {
    if !vllm_image(image) {
        Seq::empty()
    } else {
        let enable = if has_flag(
            args,
            "--enable-auto-tool-choice"@,
            "--enable-auto-tool-choice="@,
        ) {
            Seq::empty()
        } else {
            seq!["--enable-auto-tool-choice"@]
        };
        let parser = if has_flag(args, "--tool-call-parser"@, "--tool-call-parser="@) {
            Seq::empty()
        } else {
            seq!["--tool-call-parser="@ + parser_for_model(model_in_args(args))]
        };
        let prefix = if args.contains("--enable-prefix-caching"@) || args.contains(
            "--no-enable-prefix-caching"@,
        ) {
            Seq::empty()
        } else {
            seq!["--enable-prefix-caching"@]
        };
        enable + parser + prefix
    }
}

fn any_flag(args: &[String], flag: &str, with_value: &str) -> (r: bool)
    ensures
        r == has_flag(texts(args@), flag@, with_value@),
{
    let ghost all = texts(args@);
    let mut i: usize = 0;
    while i < args.len()
        invariant
            i <= args.len(),
            all == texts(args@),
            forall|j: int|
                0 <= j < i ==> #[trigger] all[j] != flag@ && !with_value@.is_prefix_of(all[j]),
        decreases args.len() - i,
    {
        assert(all[i as int] == args@[i as int]@);
        if same(args[i].as_str(), flag) || starts_with(args[i].as_str(), with_value) {
            return true;
        }
        i += 1;
    }
    false
}

fn any_arg(args: &[String], wanted: &str) -> (r: bool)
    ensures
        r == texts(args@).contains(wanted@),
{
    let ghost all = texts(args@);
    let mut i: usize = 0;
    while i < args.len()
        invariant
            i <= args.len(),
            all == texts(args@),
            forall|j: int| 0 <= j < i ==> #[trigger] all[j] != wanted@,
        decreases args.len() - i,
    {
        assert(all[i as int] == args@[i as int]@);
        if same(args[i].as_str(), wanted) {
            return true;
        }
        i += 1;
    }
    false
}

fn push_text(out: &mut Vec<String>, s: String)
    ensures
        final(out)@ == old(out)@.push(s),
        texts(final(out)@) == texts(old(out)@) + seq![s@],
{
    out.push(s);
    assert(texts(out@) =~= texts(old(out)@) + seq![s@]);
}

/// vLLM answers tool-carrying requests only when started with automatic tool
/// choice and a matching parser, and reuses prompt prefixes only on request.
/// Adds each of these flags that `original` leaves open; whatever the operator
/// set stays as it is.
pub fn inject_required_vllm_tool_args(image: &str, original: &[String], out: &mut Vec<String>)
    ensures
        texts(final(out)@) == texts(old(out)@) + added_tool_args(image@, texts(original@)),
{
    let ghost before = texts(out@);
    if !is_vllm_image(image) {
        assert(before + Seq::<Seq<char>>::empty() =~= before);
        return;
    }
    if !any_flag(original, "--enable-auto-tool-choice", "--enable-auto-tool-choice=") {
        push_text(out, "--enable-auto-tool-choice".to_owned());
    }
    if !any_flag(original, "--tool-call-parser", "--tool-call-parser=") {
        let parser: &'static str = default_tool_parser_for_args(original);
        let mut flag: String = "--tool-call-parser=".to_owned();
        flag.append(parser);
        push_text(out, flag);
    }
    if !any_arg(original, "--enable-prefix-caching") && !any_arg(
        original,
        "--no-enable-prefix-caching",
    ) {
        push_text(out, "--enable-prefix-caching".to_owned());
    }
    assert(texts(out@) =~= before + added_tool_args(image@, texts(original@)));
}

proof fn lemma_flag_stays(
    args: Seq<Seq<char>>,
    more: Seq<Seq<char>>,
    flag: Seq<char>,
    with_value: Seq<char>,
)
    ensures
        has_flag(args, flag, with_value) ==> has_flag(args + more, flag, with_value),
        has_flag(more, flag, with_value) ==> has_flag(args + more, flag, with_value),
{
    let all = args + more;
    if has_flag(args, flag, with_value) {
        let i = choose|i: int|
            0 <= i < args.len() && (#[trigger] args[i] == flag || with_value.is_prefix_of(args[i]));
        assert(all[i] == args[i]);
    }
    if has_flag(more, flag, with_value) {
        let i = choose|i: int|
            0 <= i < more.len() && (#[trigger] more[i] == flag || with_value.is_prefix_of(more[i]));
        assert(all[args.len() + i] == more[i]);
    }
}

/// Arguments that already went through the injection get nothing more: a
/// service that is started again starts with the same flags.
pub proof fn tool_args_are_added_once(image: Seq<char>, args: Seq<Seq<char>>)
    ensures
        added_tool_args(image, args + added_tool_args(image, args)).len() == 0,
{
    let added = added_tool_args(image, args);
    let all = args + added;
    if vllm_image(image) {
        let enable = "--enable-auto-tool-choice"@;
        let enable_value = "--enable-auto-tool-choice="@;
        let parser = "--tool-call-parser"@;
        let parser_value = "--tool-call-parser="@;
        let chosen = parser_value + parser_for_model(model_in_args(args));
        let prefix = "--enable-prefix-caching"@;
        let no_prefix = "--no-enable-prefix-caching"@;
        lemma_flag_stays(args, added, enable, enable_value);
        lemma_flag_stays(args, added, parser, parser_value);
        let n = if has_flag(args, enable, enable_value) {
            0int
        } else {
            1int
        };
        if n == 1 {
            assert(added[0] == enable);
            assert(has_flag(added, enable, enable_value));
        }
        if !has_flag(args, parser, parser_value) {
            assert(added[n] == chosen);
            assert(chosen.subrange(0, parser_value.len() as int) =~= parser_value);
            assert(parser_value.is_prefix_of(added[n]));
            assert(has_flag(added, parser, parser_value));
        }
        if args.contains(prefix) {
            let i = choose|i: int| 0 <= i < args.len() && args[i] == prefix;
            assert(all[i] == prefix);
        } else if args.contains(no_prefix) {
            let i = choose|i: int| 0 <= i < args.len() && args[i] == no_prefix;
            assert(all[i] == no_prefix);
        } else {
            assert(added.last() == prefix);
            assert(all[all.len() - 1] == prefix);
        }
    }
}

/// The HTTP path that shows whether a service is alive.
pub open spec fn health_path(hint: Seq<char>) -> Seq<char> {
    if hint == "ollama"@ {
        "/api/tags"@
    } else {
        "/health"@
    }
}

/// The path to probe for a service with this binary hint: Ollama has no
/// `/health`, every other engine has.
pub fn health_path_for_hint(hint: &str) -> (r: &'static str)
    ensures
        r@ == health_path(hint@),
{
    if same(hint, "ollama") {
        "/api/tags"
    } else {
        "/health"
    }
}

/// The path to probe for a service.
pub fn health_path_for(spec: &ServiceSpec) -> (r: &'static str)
    ensures
        r@ == health_path(spec@.binary_hint),
{
    health_path_for_hint(spec.binary_hint.as_str())
}

/// The binary hint of a row; empty where the row has none.
pub open spec fn row_hint(row: BackendRow) -> Seq<char> {
    match row.model_spec_json.text_field("binary_hint"@) {
        Some(s) => s,
        None => Seq::empty(),
    }
}

/// The binary hint of a row; empty where the row has none.
pub fn binary_hint_from_row(row: &BackendRow) -> (r: &str)
    ensures
        r@ == row_hint(*row),
{
    match row.model_spec_json.get_str("binary_hint") {
        Some(s) => s,
        None => {
            proof {
                reveal_strlit("");
                assert(""@ =~= Seq::<char>::empty());
            }
            ""
        },
    }
}

/// The vendor a discriminator names, in any ASCII case, white space aside.
pub open spec fn vendor_named(s: Seq<char>) -> Option<GpuVendor> {
    let key = ascii_lowercase(trimmed(s));
    if key == "nvidia"@ {
        Some(GpuVendor::Nvidia)
    } else if key == "intel"@ {
        Some(GpuVendor::Intel)
    } else if key == "amd"@ {
        Some(GpuVendor::Amd)
    } else if key == "apple"@ {
        Some(GpuVendor::Apple)
    } else {
        None
    }
}

/// The vendor a discriminator names.
pub fn parse_gpu_vendor(s: &str) -> (r: Option<GpuVendor>)
    ensures
        r == vendor_named(s@),
{
    let core: String = trim(s);
    let lower: String = to_ascii_lowercase(core.as_str());
    let key: &str = lower.as_str();
    if same(key, "nvidia") {
        Some(GpuVendor::Nvidia)
    } else if same(key, "intel") {
        Some(GpuVendor::Intel)
    } else if same(key, "amd") {
        Some(GpuVendor::Amd)
    } else if same(key, "apple") {
        Some(GpuVendor::Apple)
    } else {
        None
    }
}

/// Why a controller could not do what it was asked, with the message it gave.
#[derive(Debug)]
pub enum ServiceError {
    ImagePull(String),
    Runtime(String),
}

impl ServiceError {
    /// The message.
    pub open spec fn text(self) -> Seq<char> {
        match self {
            ServiceError::ImagePull(m) => m@,
            ServiceError::Runtime(m) => m@,
        }
    }

    /// The message.
    pub fn message(&self) -> (r: &str)
        ensures
            r@ == self.text(),
    {
        match self {
            ServiceError::ImagePull(m) => m.as_str(),
            ServiceError::Runtime(m) => m.as_str(),
        }
    }
}

/// The texts among the elements of an array, in order.
pub open spec fn text_elements(v: Seq<JsonValue>) -> Seq<Seq<char>>
    decreases v.len(),
{
    if v.len() == 0 {
        Seq::empty()
    } else {
        let rest = text_elements(v.drop_last());
        match v.last().text() {
            Some(s) => rest.push(s),
            None => rest,
        }
    }
}

/// The environment pair an element stands for: an array that begins with two
/// texts.
pub open spec fn env_pair(v: JsonValue) -> Option<(Seq<char>, Seq<char>)> {
    match v.elements() {
        Some(e) => if e.len() >= 2 {
            match (e[0].text(), e[1].text()) {
                (Some(k), Some(w)) => Some((k, w)),
                _ => None,
            }
        } else {
            None
        },
        None => None,
    }
}

/// The environment pairs among the elements of an array, in order.
pub open spec fn env_elements(v: Seq<JsonValue>) -> Seq<(Seq<char>, Seq<char>)>
    decreases v.len(),
{
    if v.len() == 0 {
        Seq::empty()
    } else {
        let rest = env_elements(v.drop_last());
        match env_pair(v.last()) {
            Some(p) => rest.push(p),
            None => rest,
        }
    }
}

/// The mount an element stands for: an object with both paths; read-only
/// unless it says otherwise.
pub open spec fn mount_entry(v: JsonValue) -> Option<MountModel> {
    match (v.text_field("host_path"@), v.text_field("container_path"@)) {
        (Some(host), Some(container)) => Some(
            MountModel {
                host_path: host,
                container_path: container,
                read_only: v.flag_field("read_only"@, true),
            },
        ),
        _ => None,
    }
}

/// The mounts among the elements of an array, in order.
pub open spec fn mount_elements(v: Seq<JsonValue>) -> Seq<MountModel>
    decreases v.len(),
{
    if v.len() == 0 {
        Seq::empty()
    } else {
        let rest = mount_elements(v.drop_last());
        match mount_entry(v.last()) {
            Some(m) => rest.push(m),
            None => rest,
        }
    }
}

/// Whether a row asks for the native runtime, in any ASCII case.
pub open spec fn native_row(spec: JsonValue) -> bool {
    match spec.text_field("runtime"@) {
        Some(s) => ascii_lowercase(s) == ascii_lowercase("native"@),
        None => false,
    }
}

/// The image a row names. A native row may leave it out.
pub open spec fn row_image(spec: JsonValue) -> Option<Seq<char>> {
    match spec.text_field("image"@) {
        Some(s) => Some(s),
        None => if native_row(spec) {
            Some(Seq::empty())
        } else {
            None
        },
    }
}

/// The service specification a row stands for, or why it stands for none.
pub open spec fn row_spec(row: BackendRow) -> Result<SpecModel, Seq<char>> {
    let spec = row.model_spec_json;
    if !(spec is Object) {
        Err("model_spec_json must be a JSON object for managed mode"@)
    } else {
        match row_image(spec) {
            None => Err("managed model_spec_json must include `image`"@),
            Some(image) => {
                let args = text_elements(spec.array_field("args"@));
                let port = match spec.unsigned_field("container_port"@) {
                    Some(n) => n,
                    None => 8000,
                };
                let vendor = match spec.text_field("gpu_vendor"@) {
                    Some(s) => vendor_named(s),
                    None => None,
                };
                let native = spec.text_field("runtime"@) == Some("native"@);
                Ok(
                    SpecModel {
                        name: "execlaw-backend-"@ + row.purpose.name(),
                        image,
                        args: args + added_tool_args(image, args),
                        entrypoint: None,
                        env: env_elements(spec.array_field("env"@)),
                        gpu_id: opt_view(row.gpu_id),
                        gpu_vendor: vendor,
                        mounts: mount_elements(spec.array_field("mounts"@)),
                        host_port: port_of(row.purpose),
                        container_port: (port % 0x10000) as u16,
                        runtime: if native {
                            ServiceRuntime::Native
                        } else {
                            ServiceRuntime::Docker
                        },
                        binary_hint: if native {
                            row_hint(row)
                        } else {
                            Seq::empty()
                        },
                    },
                )
            },
        }
    }
}

fn read_texts(v: &Vec<JsonValue>) -> (out: Vec<String>)
    ensures
        texts(out@) == text_elements(v@),
{
    let mut out: Vec<String> = Vec::new();
    let mut i: usize = 0;
    assert(texts(out@) =~= text_elements(v@.take(0)));
    while i < v.len()
        invariant
            i <= v.len(),
            texts(out@) == text_elements(v@.take(i as int)),
        decreases v.len() - i,
    {
        let ghost before = texts(out@);
        assert(v@.take(i + 1).drop_last() =~= v@.take(i as int));
        if let Some(s) = v[i].as_str() {
            out.push(s.to_owned());
            assert(texts(out@) =~= before.push(s@));
        }
        i += 1;
    }
    assert(v@.take(i as int) =~= v@);
    out
}

fn read_pair(v: &JsonValue) -> (r: Option<(String, String)>)
    ensures
        (match r {
            Some(p) => Some((p.0@, p.1@)),
            None => None,
        }) == env_pair(*v),
{
    match v.as_array() {
        Some(e) => {
            if e.len() >= 2 {
                match (e[0].as_str(), e[1].as_str()) {
                    (Some(k), Some(w)) => Some((k.to_owned(), w.to_owned())),
                    _ => None,
                }
            } else {
                None
            }
        },
        None => None,
    }
}

fn read_env(v: &Vec<JsonValue>) -> (out: Vec<(String, String)>)
    ensures
        pairs(out@) == env_elements(v@),
{
    let mut out: Vec<(String, String)> = Vec::new();
    let mut i: usize = 0;
    assert(pairs(out@) =~= env_elements(v@.take(0)));
    while i < v.len()
        invariant
            i <= v.len(),
            pairs(out@) == env_elements(v@.take(i as int)),
        decreases v.len() - i,
    {
        let ghost before = pairs(out@);
        assert(v@.take(i + 1).drop_last() =~= v@.take(i as int));
        if let Some(p) = read_pair(&v[i]) {
            out.push(p);
            assert(pairs(out@) =~= before.push((p.0@, p.1@)));
        }
        i += 1;
    }
    assert(v@.take(i as int) =~= v@);
    out
}

fn read_mount(v: &JsonValue) -> (r: Option<HostMount>)
    ensures
        (match r {
            Some(m) => Some(m@),
            None => None,
        }) == mount_entry(*v),
{
    match (v.get_str("host_path"), v.get_str("container_path")) {
        (Some(host), Some(container)) => Some(
            HostMount {
                host_path: host.to_owned(),
                container_path: container.to_owned(),
                read_only: v.get_bool("read_only", true),
            },
        ),
        _ => None,
    }
}

fn read_mounts(v: &Vec<JsonValue>) -> (out: Vec<HostMount>)
    ensures
        mount_models(out@) == mount_elements(v@),
{
    let mut out: Vec<HostMount> = Vec::new();
    let mut i: usize = 0;
    assert(mount_models(out@) =~= mount_elements(v@.take(0)));
    while i < v.len()
        invariant
            i <= v.len(),
            mount_models(out@) == mount_elements(v@.take(i as int)),
        decreases v.len() - i,
    {
        let ghost before = mount_models(out@);
        assert(v@.take(i + 1).drop_last() =~= v@.take(i as int));
        if let Some(m) = read_mount(&v[i]) {
            out.push(m);
            assert(mount_models(out@) =~= before.push(m@));
        }
        i += 1;
    }
    assert(v@.take(i as int) =~= v@);
    out
}

fn copy_texts(v: &Vec<String>) -> (out: Vec<String>)
    ensures
        texts(out@) == texts(v@),
{
    let mut out: Vec<String> = Vec::new();
    let mut i: usize = 0;
    while i < v.len()
        invariant
            i <= v.len(),
            out@ == v@.take(i as int),
        decreases v.len() - i,
    {
        out.push(v[i].clone());
        i += 1;
        assert(out@ =~= v@.take(i as int));
    }
    assert(v@.take(i as int) =~= v@);
    out
}

fn asks_native(spec: &JsonValue) -> (r: bool)
    ensures
        r == native_row(*spec),
{
    match spec.get_str("runtime") {
        Some(s) => eq_ignore_ascii_case(s, "native"),
        None => false,
    }
}

fn low_port(n: u64) -> (r: u16)
    ensures
        r == n % 0x10000,
{
    assert((n as u16) as u64 == n % 0x10000) by (bit_vector);
    #[verifier::truncate]
    let r: u16 = n as u16;
    r
}

/// Reads the operator's start configuration out of a row. Only a missing
/// `image` on a row that is not native, and a configuration that is no object,
/// are refused; every other field has a default.
pub fn spec_from_row(row: &BackendRow) -> (r: Result<ServiceSpec, String>)
    ensures
        (match r {
            Ok(s) => Ok::<SpecModel, Seq<char>>(s@),
            Err(m) => Err(m@),
        }) == row_spec(*row),
{
    let spec: &JsonValue = &row.model_spec_json;
    if !spec.is_object() {
        return Err("model_spec_json must be a JSON object for managed mode".to_owned());
    }
    let image: String = match spec.get_str("image") {
        Some(s) => s.to_owned(),
        None => {
            if asks_native(spec) {
                String::new()
            } else {
                return Err("managed model_spec_json must include `image`".to_owned());
            }
        },
    };
    let original: Vec<String> = match spec.get_array("args") {
        Some(a) => read_texts(a),
        None => {
            let none: Vec<String> = Vec::new();
            assert(texts(none@) =~= text_elements(Seq::empty()));
            none
        },
    };
    let mut args: Vec<String> = copy_texts(&original);
    inject_required_vllm_tool_args(image.as_str(), original.as_slice(), &mut args);
    let env: Vec<(String, String)> = match spec.get_array("env") {
        Some(a) => read_env(a),
        None => {
            let none: Vec<(String, String)> = Vec::new();
            assert(pairs(none@) =~= env_elements(Seq::empty()));
            none
        },
    };
    let container_port: u16 = match spec.get_u64("container_port") {
        Some(n) => low_port(n),
        None => 8000,
    };
    let gpu_vendor: Option<GpuVendor> = match spec.get_str("gpu_vendor") {
        Some(s) => parse_gpu_vendor(s),
        None => None,
    };
    let mounts: Vec<HostMount> = match spec.get_array("mounts") {
        Some(a) => read_mounts(a),
        None => {
            let none: Vec<HostMount> = Vec::new();
            assert(mount_models(none@) =~= mount_elements(Seq::empty()));
            none
        },
    };
    let native: bool = match spec.get_str("runtime") {
        Some(s) => same(s, "native"),
        None => false,
    };
    let runtime: ServiceRuntime = if native {
        ServiceRuntime::Native
    } else {
        ServiceRuntime::Docker
    };
    let binary_hint: String = if native {
        binary_hint_from_row(row).to_owned()
    } else {
        String::new()
    };
    let mut name: String = "execlaw-backend-".to_owned();
    name.append(row.purpose.as_str());
    Ok(
        ServiceSpec {
            name,
            image,
            args,
            entrypoint: None,
            env,
            gpu_id: row.gpu_id.clone(),
            gpu_vendor,
            mounts,
            host_port: host_port_for(row.purpose),
            container_port,
            runtime,
            binary_hint,
        },
    )
}

/// The CPU image that stands in for a CUDA voice image when the host's CUDA is
/// too old.
pub open spec fn cpu_fallback(
    purpose: BackendPurpose,
    image: Seq<char>,
    error: Seq<char>,
) -> Option<Seq<char>> {
    if !has_text(ascii_lowercase(error), "cuda>="@) {
        None
    } else if purpose == BackendPurpose::VoiceStt && image == "execlaw/service-whisper-cuda:v1"@ {
        Some("execlaw/service-whisper-cpu:v1"@)
    } else if purpose == BackendPurpose::VoiceTts && image == "execlaw/service-kokoro-cuda:v1"@ {
        Some("execlaw/service-piper:v1"@)
    } else {
        None
    }
}

/// Moves a CUDA voice service to its CPU image when it failed because the
/// host's CUDA is too old. Says whether it did; otherwise nothing changes.
pub fn downgrade_voice_cuda_spec(
    purpose: BackendPurpose,
    spec: &mut ServiceSpec,
    error: &ServiceError,
) -> (r: bool)
    ensures
        r == cpu_fallback(purpose, old(spec)@.image, error.text()) is Some,
        !r ==> *final(spec) == *old(spec),
        cpu_fallback(purpose, old(spec)@.image, error.text()) matches Some(image)
            ==> final(spec)@ == (SpecModel { image, gpu_id: None, gpu_vendor: None, ..old(spec)@ }),
{
    let lower: String = to_ascii_lowercase(error.message());
    if !contains(lower.as_str(), "cuda>=") {
        return false;
    }
    let cpu_image: &str = if purpose == BackendPurpose::VoiceStt && same(
        spec.image.as_str(),
        "execlaw/service-whisper-cuda:v1",
    ) {
        "execlaw/service-whisper-cpu:v1"
    } else if purpose == BackendPurpose::VoiceTts && same(
        spec.image.as_str(),
        "execlaw/service-kokoro-cuda:v1",
    ) {
        "execlaw/service-piper:v1"
    } else {
        return false;
    };
    spec.image = cpu_image.to_owned();
    spec.gpu_id = None;
    spec.gpu_vendor = None;
    true
}

/// The image of a row for display.
pub open spec fn shown_image(row: BackendRow) -> Seq<char> {
    match row.model_spec_json.text_field("image"@) {
        Some(s) => s,
        None => "(unknown image)"@,
    }
}

/// The image of a row for display.
pub fn spec_image_for_alert(row: &BackendRow) -> (r: String)
    ensures
        r@ == shown_image(*row),
{
    match row.model_spec_json.get_str("image") {
        Some(s) => s.to_owned(),
        None => "(unknown image)".to_owned(),
    }
}

/// The model repository an argument array names: the value of the first
/// non-empty `--model=` or of the argument behind `--model`, whichever comes
/// first. An argument that is no text ends the search.
pub open spec fn repository_in(args: Seq<JsonValue>) -> Option<Seq<char>>
    decreases args.len(),
{
    if args.len() == 0 {
        None
    } else {
        match args[0].text() {
            None => None,
            Some(s) => if "--model="@.is_prefix_of(s) && s.len() > "--model="@.len() {
                Some(s.skip("--model="@.len() as int))
            } else if s == "--model"@ {
                if args.len() > 1 {
                    args[1].text()
                } else {
                    None
                }
            } else {
                repository_in(args.skip(1))
            },
        }
    }
}

/// The model repository to fetch for a row: none for a row without an image or
/// argument array, and none for the voice images, whose `--model` names no
/// repository.
pub open spec fn row_repository(row: BackendRow) -> Option<Seq<char>> {
    match row.model_spec_json.text_field("image"@) {
        None => None,
        Some(image) => if has_text(image, "whisper-"@) || has_text(image, "kokoro-"@) || has_text(
            image,
            "piper-"@,
        ) {
            None
        } else {
            repository_in(row.model_spec_json.array_field("args"@))
        },
    }
}

fn find_repository(args: &Vec<JsonValue>) -> (r: Option<String>)
    ensures
        opt_view(r) == repository_in(args@),
{
    let mut i: usize = 0;
    assert(args@.skip(0) =~= args@);
    while i < args.len()
        invariant
            i <= args.len(),
            repository_in(args@) == repository_in(args@.skip(i as int)),
        decreases args.len() - i,
    {
        let s: &str = match args[i].as_str() {
            Some(s) => s,
            None => {
                return None;
            },
        };
        if let Some(rest) = strip_prefix(s, "--model=") {
            if !rest.as_str().is_empty() {
                return Some(rest);
            }
        }
        if same(s, "--model") {
            proof {
                reveal_strlit("--model");
                reveal_strlit("--model=");
            }
            if i + 1 < args.len() {
                assert(args@.skip(i as int)[1] == args@[i + 1]);
                return match args[i + 1].as_str() {
                    Some(t) => Some(t.to_owned()),
                    None => None,
                };
            }
            return None;
        }
        assert(args@.skip(i as int).skip(1) =~= args@.skip(i + 1));
        i += 1;
    }
    None
}

/// The model repository to fetch for a row.
pub fn extract_model_id(row: &BackendRow) -> (r: Option<String>)
    ensures
        opt_view(r) == row_repository(*row),
{
    let image: &str = match row.model_spec_json.get_str("image") {
        Some(s) => s,
        None => {
            return None;
        },
    };
    if contains(image, "whisper-") || contains(image, "kokoro-") || contains(image, "piper-") {
        return None;
    }
    match row.model_spec_json.get_array("args") {
        Some(a) => find_repository(a),
        None => None,
    }
}

/// Whether a row is the native Ollama preset: both fields, in any ASCII case.
pub open spec fn ollama_row(row: BackendRow) -> bool {
    native_row(row.model_spec_json) && match row.model_spec_json.text_field("binary_hint"@) {
        Some(s) => ascii_lowercase(s) == ascii_lowercase("ollama"@),
        None => false,
    }
}

/// Whether a row is the native Ollama preset.
pub fn is_ollama_row(row: &BackendRow) -> (r: bool)
    ensures
        r == ollama_row(*row),
{
    let hinted: bool = match row.model_spec_json.get_str("binary_hint") {
        Some(s) => eq_ignore_ascii_case(s, "ollama"),
        None => false,
    };
    asks_native(&row.model_spec_json) && hinted
}

/// The Ollama tag of a row, where it has one that is not empty.
pub open spec fn row_ollama_tag(row: BackendRow) -> Option<Seq<char>> {
    match row.model_spec_json.text_field("model"@) {
        Some(s) => if s.len() > 0 {
            Some(s)
        } else {
            None
        },
        None => None,
    }
}

/// The Ollama tag of a row, where it has one that is not empty.
pub fn extract_ollama_model_id(row: &BackendRow) -> (r: Option<String>)
    ensures
        opt_view(r) == row_ollama_tag(*row),
{
    match row.model_spec_json.get_str("model") {
        Some(s) => {
            if s.is_empty() {
                None
            } else {
                Some(s.to_owned())
            }
        },
        None => None,
    }
}

/// Some mount already covers the container's cache directory.
pub open spec fn mounts_cache(mounts: Seq<MountModel>) -> bool {
    exists|i: int|
        0 <= i < mounts.len() && (#[trigger] mounts[i]).container_path
            == "/root/.cache/huggingface"@
}

/// Some pair already sets the variable.
pub open spec fn sets_variable(env: Seq<(Seq<char>, Seq<char>)>, key: Seq<char>) -> bool {
    exists|i: int| 0 <= i < env.len() && (#[trigger] env[i]).0 == key
}

/// `env` with the variable set, unless it already is.
pub open spec fn with_variable(
    env: Seq<(Seq<char>, Seq<char>)>,
    key: Seq<char>,
    value: Seq<char>,
) -> Seq<(Seq<char>, Seq<char>)> {
    if sets_variable(env, key) {
        env
    } else {
        env.push((key, value))
    }
}

/// A specification that reads model files from the host's cache: the mount and
/// the two variables, each added only where it is not there yet.
pub open spec fn with_cache(spec: SpecModel, cache: Seq<char>) -> SpecModel {
    let mounts = if mounts_cache(spec.mounts) {
        spec.mounts
    } else {
        spec.mounts.push(
            MountModel {
                host_path: cache,
                container_path: "/root/.cache/huggingface"@,
                read_only: true,
            },
        )
    };
    let env = with_variable(
        with_variable(spec.env, "HF_HOME"@, "/root/.cache/huggingface"@),
        "HF_HUB_OFFLINE"@,
        "1"@,
    );
    SpecModel { mounts, env, ..spec }
}

fn has_cache_mount(mounts: &Vec<HostMount>) -> (r: bool)
    ensures
        r == mounts_cache(mount_models(mounts@)),
{
    let ghost all = mount_models(mounts@);
    let mut i: usize = 0;
    while i < mounts.len()
        invariant
            i <= mounts.len(),
            all == mount_models(mounts@),
            forall|j: int|
                0 <= j < i ==> (#[trigger] all[j]).container_path != "/root/.cache/huggingface"@,
        decreases mounts.len() - i,
    {
        assert(all[i as int] == mounts@[i as int]@);
        if same(mounts[i].container_path.as_str(), "/root/.cache/huggingface") {
            return true;
        }
        i += 1;
    }
    false
}

fn has_variable(env: &Vec<(String, String)>, key: &str) -> (r: bool)
    ensures
        r == sets_variable(pairs(env@), key@),
{
    let ghost all = pairs(env@);
    let mut i: usize = 0;
    while i < env.len()
        invariant
            i <= env.len(),
            all == pairs(env@),
            forall|j: int| 0 <= j < i ==> (#[trigger] all[j]).0 != key@,
        decreases env.len() - i,
    {
        assert(all[i as int].0 == env@[i as int].0@);
        if same(env[i].0.as_str(), key) {
            return true;
        }
        i += 1;
    }
    false
}

fn set_variable(env: &mut Vec<(String, String)>, key: &str, value: &str)
    ensures
        pairs(final(env)@) == with_variable(pairs(old(env)@), key@, value@),
{
    if !has_variable(env, key) {
        let ghost before = pairs(env@);
        env.push((key.to_owned(), value.to_owned()));
        assert(pairs(env@) =~= before.push((key@, value@)));
    }
}

/// Makes a service read model files from the host's cache only.
pub fn attach_hf_cache_mount(spec: &mut ServiceSpec, primary_cache: &str)
    ensures
        final(spec)@ == with_cache(old(spec)@, primary_cache@),
{
    if !has_cache_mount(&spec.mounts) {
        let ghost before = mount_models(spec.mounts@);
        let mount = HostMount {
            host_path: primary_cache.to_owned(),
            container_path: "/root/.cache/huggingface".to_owned(),
            read_only: true,
        };
        spec.mounts.push(mount);
        assert(mount_models(spec.mounts@) =~= before.push(mount@));
    }
    set_variable(&mut spec.env, "HF_HOME", "/root/.cache/huggingface");
    set_variable(&mut spec.env, "HF_HUB_OFFLINE", "1");
}

proof fn lemma_variable_stays(
    env: Seq<(Seq<char>, Seq<char>)>,
    key: Seq<char>,
    other: Seq<char>,
    value: Seq<char>,
)
    ensures
        sets_variable(env, key) ==> sets_variable(with_variable(env, other, value), key),
        sets_variable(with_variable(env, other, value), other),
{
    let after = with_variable(env, other, value);
    if sets_variable(env, key) {
        let i = choose|i: int| 0 <= i < env.len() && (#[trigger] env[i]).0 == key;
        assert(after[i].0 == key);
    }
    if !sets_variable(env, other) {
        assert(after[env.len() as int].0 == other);
    }
}

/// Attaching the cache a second time, from whichever directory, changes
/// nothing.
pub proof fn cache_attachment_is_idempotent(
    spec: SpecModel,
    cache: Seq<char>,
    again: Seq<char>,
)
    ensures
        with_cache(with_cache(spec, cache), again) == with_cache(spec, cache),
{
    let once = with_cache(spec, cache);
    if !mounts_cache(spec.mounts) {
        assert(once.mounts[spec.mounts.len() as int].container_path
            == "/root/.cache/huggingface"@);
    }
    let home = with_variable(spec.env, "HF_HOME"@, "/root/.cache/huggingface"@);
    lemma_variable_stays(spec.env, "HF_HOME"@, "HF_HOME"@, "/root/.cache/huggingface"@);
    lemma_variable_stays(home, "HF_HOME"@, "HF_HUB_OFFLINE"@, "1"@);
}

/// The member that an object has under a key: no member in front of it bears the key.
pub open spec fn stands_under(members: Seq<JsonMember>, i: int, key: Seq<char>) -> bool {
    &&& 0 <= i < members.len()
    &&& members[i].key@ == key
    &&& forall|j: int| 0 <= j < i ==> (#[trigger] members[j]).key@ != key
}

/// An element of `env` that is an array of a name and a value.
pub open spec fn names_a_variable(v: JsonValue) -> bool {
    v matches JsonValue::Array(e) && e@.len() >= 2 && e@[0] is Text && e@[1] is Text
}

/// A row that is an object with an image has a specification, with that image. Each
/// element of its `env` array that is an array of two texts sets the variable that the
/// first text names to the second, in order.
pub proof fn the_environment_names_its_variables(
    row: BackendRow,
    members: Vec<JsonMember>,
    image: int,
    env: int,
    elements: Vec<JsonValue>,
    i: int,
)
    requires
        row.model_spec_json == JsonValue::Object(members),
        stands_under(members@, image, "image"@),
        members@[image].value is Text,
        stands_under(members@, env, "env"@),
        members@[env].value == JsonValue::Array(elements),
        forall|k: int| 0 <= k < elements@.len() ==> names_a_variable(#[trigger] elements@[k]),
        0 <= i < elements@.len(),
    ensures
        row_spec(row) matches Ok(spec) && {
            &&& spec.image == members@[image].value->Text_0@
            &&& spec.env.len() == elements@.len()
            &&& spec.env[i].0 == elements@[i]->Array_0@[0]->Text_0@
            &&& spec.env[i].1 == elements@[i]->Array_0@[1]->Text_0@
        },
{
    the_first_member_counts(members@, "image"@, image);
    the_first_member_counts(members@, "env"@, env);
    lemma_env_pointwise(elements@, i);
}

proof fn lemma_env_pointwise(elements: Seq<JsonValue>, i: int)
    requires
        forall|k: int| 0 <= k < elements.len() ==> names_a_variable(#[trigger] elements[k]),
        0 <= i < elements.len(),
    ensures
        env_elements(elements).len() == elements.len(),
        env_elements(elements)[i].0 == elements[i]->Array_0@[0]->Text_0@,
        env_elements(elements)[i].1 == elements[i]->Array_0@[1]->Text_0@,
    decreases elements.len(),
{
    let front = elements.drop_last();
    assert forall|k: int| 0 <= k < front.len() implies names_a_variable(#[trigger] front[k]) by {
        assert(front[k] == elements[k]);
    }
    assert(names_a_variable(elements[elements.len() - 1]));
    if front.len() > 0 {
        lemma_env_pointwise(front, 0);
        if i < front.len() {
            lemma_env_pointwise(front, i);
            assert(front[i] == elements[i]);
        }
    } else {
        assert(env_elements(front) =~= Seq::<(Seq<char>, Seq<char>)>::empty());
    }
}

/// Every text of a row's `args` array is an argument of its service, in order and in front
/// of all that is added; nothing is added to a service that is not vLLM's.
pub proof fn the_operators_arguments_come_first(
    row: BackendRow,
    members: Vec<JsonMember>,
    image: int,
    args: int,
    elements: Vec<JsonValue>,
    i: int,
)
    requires
        row.model_spec_json == JsonValue::Object(members),
        stands_under(members@, image, "image"@),
        members@[image].value is Text,
        stands_under(members@, args, "args"@),
        members@[args].value == JsonValue::Array(elements),
        forall|k: int| 0 <= k < elements@.len() ==> (#[trigger] elements@[k]) is Text,
        0 <= i < elements@.len(),
    ensures
        row_spec(row) matches Ok(spec) && {
            &&& spec.args.len() >= elements@.len()
            &&& spec.args[i] == elements@[i]->Text_0@
            &&& !has_text(ascii_lowercase(members@[image].value->Text_0@), "vllm"@)
                ==> spec.args.len() == elements@.len()
        },
{
    the_first_member_counts(members@, "image"@, image);
    the_first_member_counts(members@, "args"@, args);
    lemma_args_pointwise(elements@, i);
}

proof fn lemma_args_pointwise(elements: Seq<JsonValue>, i: int)
    requires
        forall|k: int| 0 <= k < elements.len() ==> (#[trigger] elements[k]) is Text,
        0 <= i < elements.len(),
    ensures
        text_elements(elements).len() == elements.len(),
        text_elements(elements)[i] == elements[i]->Text_0@,
    decreases elements.len(),
{
    let front = elements.drop_last();
    assert forall|k: int| 0 <= k < front.len() implies (#[trigger] front[k]) is Text by {
        assert(front[k] == elements[k]);
    }
    assert(elements[elements.len() - 1] is Text);
    if front.len() > 0 {
        lemma_args_pointwise(front, 0);
        if i < front.len() {
            lemma_args_pointwise(front, i);
            assert(front[i] == elements[i]);
        }
    } else {
        assert(text_elements(front) =~= Seq::<Seq<char>>::empty());
    }
}

/// A mount leads from the host path that it names to the container path that it names, and
/// may be written to only where it says so.
pub proof fn a_mount_leads_from_host_to_container(
    members: Vec<JsonMember>,
    host: int,
    container: int,
    read_only: int,
)
    requires
        stands_under(members@, host, "host_path"@),
        members@[host].value is Text,
        stands_under(members@, container, "container_path"@),
        members@[container].value is Text,
    ensures
        mount_entry(JsonValue::Object(members)) matches Some(m) && {
            &&& m.host_path == members@[host].value->Text_0@
            &&& m.container_path == members@[container].value->Text_0@
            &&& (forall|j: int|
                0 <= j < members@.len() ==> (#[trigger] members@[j]).key@ != "read_only"@)
                ==> m.read_only
            &&& stands_under(members@, read_only, "read_only"@) ==> (
            members@[read_only].value matches JsonValue::Bool(b) ==> m.read_only == b)
        },
{
    the_first_member_counts(members@, "host_path"@, host);
    the_first_member_counts(members@, "container_path"@, container);
    if stands_under(members@, read_only, "read_only"@) {
        the_first_member_counts(members@, "read_only"@, read_only);
    }
    if forall|j: int| 0 <= j < members@.len() ==> (#[trigger] members@[j]).key@ != "read_only"@ {
        the_first_member_counts(members@, "read_only"@, members@.len() as int);
    }
}

/// Each mount of a row whose mounts are all whole is a mount of its service, in order.
pub proof fn whole_mounts_are_all_mounted(elements: Seq<JsonValue>, i: int)
    requires
        forall|k: int| 0 <= k < elements.len() ==> mount_entry(#[trigger] elements[k]) is Some,
        0 <= i < elements.len(),
    ensures
        mount_elements(elements).len() == elements.len(),
        mount_elements(elements)[i] == mount_entry(elements[i])->0,
    decreases elements.len(),
{
    let front = elements.drop_last();
    assert forall|k: int| 0 <= k < front.len() implies mount_entry(#[trigger] front[k]) is Some by {
        assert(front[k] == elements[k]);
    }
    assert(mount_entry(elements[elements.len() - 1]) is Some);
    if front.len() > 0 {
        whole_mounts_are_all_mounted(front, 0);
        if i < front.len() {
            whole_mounts_are_all_mounted(front, i);
            assert(front[i] == elements[i]);
        }
    } else {
        assert(mount_elements(front) =~= Seq::<MountModel>::empty());
    }
}

/// A container port that fits is the service's; without one it is 8000. The service is
/// bound to its purpose's host port, bears its purpose's name, and has the row's device.
pub proof fn a_service_is_its_purposes_own(row: BackendRow, members: Vec<JsonMember>, port: int)
    requires
        row.model_spec_json == JsonValue::Object(members),
        row_spec(row) is Ok,
    ensures
        row_spec(row) matches Ok(spec) && {
            &&& spec.name == "execlaw-backend-"@ + row.purpose.name()
            &&& spec.host_port == port_of(row.purpose)
            &&& spec.entrypoint is None
            &&& spec.gpu_id == (match row.gpu_id {
                Some(g) => Some(g@),
                None => None,
            })
            &&& stands_under(members@, port, "container_port"@) ==> (
            members@[port].value matches JsonValue::Number(JsonNumber::Unsigned(n)) ==> (n
                < 0x10000 ==> spec.container_port == n))
            &&& (forall|j: int|
                0 <= j < members@.len() ==> (#[trigger] members@[j]).key@ != "container_port"@)
                ==> spec.container_port == 8000
        },
{
    if stands_under(members@, port, "container_port"@) {
        the_first_member_counts(members@, "container_port"@, port);
    }
    if forall|j: int| 0 <= j < members@.len() ==> (#[trigger] members@[j]).key@
        != "container_port"@ {
        the_first_member_counts(members@, "container_port"@, members@.len() as int);
    }
}

/// A row without an image, and one that is no object, starts nothing.
pub proof fn a_row_without_an_image_starts_nothing(row: BackendRow, members: Vec<JsonMember>)
    ensures
        !(row.model_spec_json is Object) ==> row_spec(row) is Err,
        row.model_spec_json == JsonValue::Object(members) && (forall|j: int|
            0 <= j < members@.len() ==> (#[trigger] members@[j]).key@ != "image"@ && members@[j].key@
                != "runtime"@) ==> row_spec(row) is Err,
{
    if row.model_spec_json == JsonValue::Object(members) && (forall|j: int|
        0 <= j < members@.len() ==> (#[trigger] members@[j]).key@ != "image"@ && members@[j].key@
            != "runtime"@) {
        the_first_member_counts(members@, "image"@, members@.len() as int);
        the_first_member_counts(members@, "runtime"@, members@.len() as int);
    }
}

/// A specification is seen as it is: nothing is left out or exchanged.
pub proof fn a_specification_is_seen_as_it_is(spec: ServiceSpec, i: int)
    ensures
        spec@.name == spec.name@ && spec@.image == spec.image@,
        spec@.args.len() == spec.args@.len(),
        0 <= i < spec.args@.len() ==> spec@.args[i] == spec.args@[i]@,
        spec@.env.len() == spec.env@.len(),
        0 <= i < spec.env@.len() ==> spec@.env[i].0 == spec.env@[i].0@ && spec@.env[i].1
            == spec.env@[i].1@,
        spec@.mounts.len() == spec.mounts@.len(),
        0 <= i < spec.mounts@.len() ==> spec@.mounts[i].host_path == spec.mounts@[i].host_path@
            && spec@.mounts[i].container_path == spec.mounts@[i].container_path@
            && spec@.mounts[i].read_only == spec.mounts@[i].read_only,
        spec@.host_port == spec.host_port && spec@.container_port == spec.container_port,
        spec@.runtime == spec.runtime && spec@.gpu_vendor == spec.gpu_vendor,
        spec@.binary_hint == spec.binary_hint@,
{
}

/// With the cache attached, the service reads models from the host's directory, read-only,
/// and is told where they are and not to fetch; what the operator mounted or set there
/// stays, and nothing else changes.
pub proof fn the_cache_is_where_the_service_looks(spec: SpecModel, cache: Seq<char>, i: int)
    ensures
        ({
            let after = with_cache(spec, cache);
            &&& after.image == spec.image && after.args == spec.args && after.name == spec.name
            &&& 0 <= i < spec.mounts.len() ==> after.mounts[i] == spec.mounts[i]
            &&& 0 <= i < spec.env.len() ==> after.env[i] == spec.env[i]
            &&& (forall|j: int|
                0 <= j < spec.mounts.len() ==> (#[trigger] spec.mounts[j]).container_path
                    != "/root/.cache/huggingface"@) ==> after.mounts.last() == (MountModel {
                host_path: cache,
                container_path: "/root/.cache/huggingface"@,
                read_only: true,
            })
            &&& (forall|j: int|
                0 <= j < spec.env.len() ==> (#[trigger] spec.env[j]).0 != "HF_HOME"@
                    && spec.env[j].0 != "HF_HUB_OFFLINE"@) ==> after.env == spec.env.push(
                ("HF_HOME"@, "/root/.cache/huggingface"@),
            ).push(("HF_HUB_OFFLINE"@, "1"@))
        }),
{
    reveal_strlit("HF_HOME");
    reveal_strlit("HF_HUB_OFFLINE");
    let home = with_variable(spec.env, "HF_HOME"@, "/root/.cache/huggingface"@);
    if forall|j: int| 0 <= j < spec.env.len() ==> (#[trigger] spec.env[j]).0 != "HF_HOME"@
        && spec.env[j].0 != "HF_HUB_OFFLINE"@ {
        assert(!sets_variable(spec.env, "HF_HOME"@));
        assert("HF_HOME"@.len() != "HF_HUB_OFFLINE"@.len());
        assert(!sets_variable(home, "HF_HUB_OFFLINE"@)) by {
            assert forall|j: int| 0 <= j < home.len() implies (#[trigger] home[j]).0
                != "HF_HUB_OFFLINE"@ by {
                if j < spec.env.len() {
                    assert(home[j] == spec.env[j]);
                }
            }
        }
    }
}

/// A service is probed where its engine answers: Ollama at its list of models, every other
/// engine at its health path.
pub proof fn engines_are_probed_where_they_answer(hint: Seq<char>)
    ensures
        hint == "ollama"@ ==> health_path(hint) == "/api/tags"@,
        hint != "ollama"@ ==> health_path(hint) == "/health"@,
{
}

/// Only a voice service that failed for its CUDA falls back to the CPU, and it falls back to
/// an image of its own purpose.
pub proof fn only_cuda_voices_fall_back(
    purpose: BackendPurpose,
    image: Seq<char>,
    message: Seq<char>,
)
    ensures
        cpu_fallback(purpose, image, message) is Some ==> has_text(
            ascii_lowercase(message),
            "cuda>="@,
        ) && (purpose == BackendPurpose::VoiceStt || purpose == BackendPurpose::VoiceTts),
        has_text(ascii_lowercase(message), "cuda>="@) ==> cpu_fallback(
            BackendPurpose::VoiceStt,
            "execlaw/service-whisper-cuda:v1"@,
            message,
        ) == Some("execlaw/service-whisper-cpu:v1"@),
        has_text(ascii_lowercase(message), "cuda>="@) ==> cpu_fallback(
            BackendPurpose::VoiceTts,
            "execlaw/service-kokoro-cuda:v1"@,
            message,
        ) == Some("execlaw/service-piper:v1"@),
{
}

/// The parser of tool calls follows the model's family, whatever the case of its
/// name; a model of no known family gets the general one.
pub proof fn a_model_gets_its_familys_parser(model: Seq<char>)
    ensures
        ({
            let name = ascii_lowercase(model);
            let llama = has_text(name, "llama-3"@) || has_text(name, "llama3"@);
            let mistral = has_text(name, "mistral"@);
            let coder = has_text(name, "qwen3.6"@) || has_text(name, "qwen3_6"@);
            let qwen = has_text(name, "qwen3"@);
            &&& llama ==> parser_for_model(model) == "llama3_json"@
            &&& mistral && !llama ==> parser_for_model(model) == "mistral"@
            &&& coder && !llama && !mistral ==> parser_for_model(model) == "qwen3_coder"@
            &&& qwen && !coder && !llama && !mistral ==> parser_for_model(model) == "qwen3_xml"@
            &&& !qwen && !coder && !llama && !mistral ==> parser_for_model(model) == "hermes"@
        }),
{
}

/// A vLLM service whose arguments name none of them is told to choose tools, to parse
/// their calls and to cache prefixes; a service of another engine is told nothing.
pub proof fn a_vllm_service_is_told_of_tools(image: Seq<char>, args: Seq<Seq<char>>)
    ensures
        !has_text(ascii_lowercase(image), "vllm"@) ==> added_tool_args(image, args).len() == 0,
        has_text(ascii_lowercase(image), "vllm"@) && (forall|i: int|
            0 <= i < args.len() ==> (#[trigger] args[i]) != "--enable-auto-tool-choice"@
                && !"--enable-auto-tool-choice="@.is_prefix_of(args[i]) && args[i]
                != "--tool-call-parser"@ && !"--tool-call-parser="@.is_prefix_of(args[i])
                && args[i] != "--enable-prefix-caching"@ && args[i]
                != "--no-enable-prefix-caching"@) ==> {
            &&& added_tool_args(image, args).len() == 3
            &&& added_tool_args(image, args)[0] == "--enable-auto-tool-choice"@
            &&& added_tool_args(image, args)[1] == "--tool-call-parser="@ + parser_for_model(
                model_in_args(args),
            )
            &&& added_tool_args(image, args)[2] == "--enable-prefix-caching"@
        },
{
}

/// What an argument `--model=` names first is the model, wherever it stands.
pub proof fn a_joined_argument_names_the_model(args: Seq<Seq<char>>, i: int, model: Seq<char>)
    requires
        0 <= i < args.len(),
        forall|j: int| 0 <= j < i ==> !"--model="@.is_prefix_of(#[trigger] args[j]),
        args[i] == "--model="@ + model,
    ensures
        joined_model_arg(args) == Some(model),
        model_in_args(args) == model,
    decreases i,
{
    let head = "--model="@;
    if i == 0 {
        assert(args[0].take(head.len() as int) =~= head);
        assert(args[0].skip(head.len() as int) =~= model);
    } else {
        let rest = args.skip(1);
        assert(!head.is_prefix_of(args[0]));
        assert forall|j: int| 0 <= j < i - 1 implies !head.is_prefix_of(#[trigger] rest[j]) by {
            assert(rest[j] == args[j + 1]);
        }
        assert(rest[i - 1] == args[i]);
        a_joined_argument_names_the_model(rest, i - 1, model);
    }
}

proof fn lemma_no_joined_argument(args: Seq<Seq<char>>)
    requires
        forall|j: int| 0 <= j < args.len() ==> !"--model="@.is_prefix_of(#[trigger] args[j]),
    ensures
        joined_model_arg(args) is None,
    decreases args.len(),
{
    if args.len() > 0 {
        let rest = args.skip(1);
        assert(!"--model="@.is_prefix_of(args[0]));
        assert forall|j: int| 0 <= j < rest.len() implies !"--model="@.is_prefix_of(
            #[trigger] rest[j],
        ) by {
            assert(rest[j] == args[j + 1]);
        }
        lemma_no_joined_argument(rest);
    }
}

proof fn lemma_separate_argument(args: Seq<Seq<char>>, i: int)
    requires
        0 <= i < args.len(),
        forall|j: int| 0 <= j < i ==> #[trigger] args[j] != "--model"@,
        args[i] == "--model"@,
    ensures
        separate_model_arg(args) == (if i + 1 < args.len() {
            Some(args[i + 1])
        } else {
            None
        }),
    decreases i,
{
    if i > 0 {
        let rest = args.skip(1);
        assert(args[0] != "--model"@);
        assert forall|j: int| 0 <= j < i - 1 implies #[trigger] rest[j] != "--model"@ by {
            assert(rest[j] == args[j + 1]);
        }
        assert(rest[i - 1] == args[i]);
        if i + 1 < args.len() {
            assert(rest[i] == args[i + 1]);
        }
        lemma_separate_argument(rest, i - 1);
    }
}

/// Where no argument `--model=` names the model, the one behind the first `--model`
/// does.
pub proof fn the_argument_behind_names_the_model(args: Seq<Seq<char>>, i: int)
    requires
        0 <= i < args.len() - 1,
        forall|j: int| 0 <= j < args.len() ==> !"--model="@.is_prefix_of(#[trigger] args[j]),
        forall|j: int| 0 <= j < i ==> #[trigger] args[j] != "--model"@,
        args[i] == "--model"@,
    ensures
        model_in_args(args) == args[i + 1],
{
    lemma_no_joined_argument(args);
    lemma_separate_argument(args, i);
}

/// The model that is downloaded for a row is the one behind `--model` or `--model=`,
/// whichever stands first among its arguments.
pub proof fn the_first_argument_names_the_repository(args: Seq<JsonValue>, i: int)
    requires
        0 <= i < args.len(),
        forall|j: int|
            0 <= j < i ==> (#[trigger] args[j] matches JsonValue::Text(t) && t@ != "--model"@
                && !"--model="@.is_prefix_of(t@)),
    ensures
        args[i] matches JsonValue::Text(t) ==> (t@ == "--model"@ && i + 1 < args.len() ==> (
        args[i + 1] matches JsonValue::Text(m) ==> repository_in(args) == Some(m@))),
        args[i] matches JsonValue::Text(t) ==> ("--model="@.is_prefix_of(t@) && t@.len()
            > "--model="@.len() ==> repository_in(args) == Some(
            t@.skip("--model="@.len() as int),
        )),
        !(args[i] is Text) ==> repository_in(args) is None,
    decreases i,
{
    if i > 0 {
        let rest = args.skip(1);
        assert(args[0] is Text);
        assert forall|j: int| 0 <= j < i - 1 implies (#[trigger] rest[j] matches JsonValue::Text(t)
            && t@ != "--model"@ && !"--model="@.is_prefix_of(t@)) by {
            assert(rest[j] == args[j + 1]);
        }
        assert(rest[i - 1] == args[i]);
        if i + 1 < args.len() {
            assert(rest[i] == args[i + 1]);
        }
        the_first_argument_names_the_repository(rest, i - 1);
    } else {
        reveal_strlit("--model");
        reveal_strlit("--model=");
        assert("--model"@.len() < "--model="@.len());
    }
}

/// Speech engines bring their own models, and a row without an image has none; any
/// other row downloads what its arguments name.
pub proof fn speech_engines_download_nothing(row: BackendRow)
    ensures
        row.model_spec_json.text_field("image"@) is None ==> row_repository(row) is None,
        row.model_spec_json.text_field("image"@) matches Some(image) ==> (has_text(
            image,
            "whisper-"@,
        ) || has_text(image, "kokoro-"@) || has_text(image, "piper-"@) ==> row_repository(
            row,
        ) is None),
        row.model_spec_json.text_field("image"@) matches Some(image) ==> (!has_text(
            image,
            "whisper-"@,
        ) && !has_text(image, "kokoro-"@) && !has_text(image, "piper-"@) ==> row_repository(row)
            == repository_in(row.model_spec_json.array_field("args"@))),
{
}

/// A vendor is known by its name, in any case and between blanks, and by no other.
pub proof fn a_vendor_is_known_by_its_name(s: Seq<char>)
    ensures
        vendor_named(s) == Some(GpuVendor::Nvidia) <==> ascii_lowercase(trimmed(s)) == "nvidia"@,
        vendor_named(s) == Some(GpuVendor::Intel) <==> ascii_lowercase(trimmed(s)) == "intel"@,
        vendor_named(s) == Some(GpuVendor::Amd) <==> ascii_lowercase(trimmed(s)) == "amd"@,
        vendor_named(s) == Some(GpuVendor::Apple) <==> ascii_lowercase(trimmed(s)) == "apple"@,
{
    reveal_strlit("nvidia");
    reveal_strlit("intel");
    reveal_strlit("amd");
    reveal_strlit("apple");
    assert("nvidia"@.len() == 6);
    assert("intel"@.len() == 5);
    assert("amd"@.len() == 3);
    assert("apple"@.len() == 5);
    assert("intel"@[0] == 'i');
    assert("apple"@[0] == 'a');
}

/// Ollama pulls the model that its row names, and nothing where the name is empty.
pub proof fn a_tag_is_the_rows_model(row: BackendRow)
    ensures
        row.model_spec_json.text_field("model"@) matches Some(tag) ==> (tag.len() > 0
            ==> row_ollama_tag(row) == Some(tag)),
        row.model_spec_json.text_field("model"@) matches Some(tag) ==> (tag.len() == 0
            ==> row_ollama_tag(row) is None),
        row.model_spec_json.text_field("model"@) is None ==> row_ollama_tag(row) is None,
{
}

} // verus!
