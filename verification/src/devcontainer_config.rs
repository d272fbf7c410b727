//! Classification and summary of parsed `devcontainer.json` documents, and
//! the resolved view of one config used to disambiguate container lookups.

use vstd::prelude::*;
use crate::json::{as_text, get_member, member_string, member_text, object_get, text_of, value_get, JsonValue};
use crate::text::{concat, join_path, path_join, sort_texts, sorted_texts};

verus! {

/// Classification of a parsed devcontainer.json based on which top-level
/// fields are present.
#[derive(Debug, Clone, Copy, PartialEq, Eq, Structural)]
pub enum ConfigKind {
    /// `dockerComposeFile` + `service` — multi-container compose project.
    Compose,
    /// `build.dockerfile` or top-level `dockerFile` — image is built locally.
    Dockerfile,
    /// `image` — pre-built image is used directly.
    Image,
    /// None of the above could be determined.
    Unknown,
}

/// `key` is a member of the object `entries`.
pub open spec fn has_member(entries: Seq<(String, JsonValue)>, key: Seq<char>) -> bool {
    object_get(entries, key) is Some
}

/// The kind a devcontainer.json object declares: compose wins over a
/// Dockerfile build, which wins over an image.
pub open spec fn config_kind(entries: Seq<(String, JsonValue)>) -> ConfigKind {
    if has_member(entries, "dockerComposeFile"@) {
        ConfigKind::Compose
    } else if has_member(entries, "dockerFile"@) || match object_get(entries, "build"@) {
        Some(JsonValue::Object(b)) => has_member(b@, "dockerfile"@) || has_member(b@, "dockerFile"@),
        _ => false,
    } {
        ConfigKind::Dockerfile
    } else if has_member(entries, "image"@) {
        ConfigKind::Image
    } else {
        ConfigKind::Unknown
    }
}

/// The string items of `items`, in order; other items are skipped.
pub open spec fn texts_of(items: Seq<JsonValue>) -> Seq<Seq<char>>
    decreases items.len(),
{
    if items.len() == 0 {
        Seq::empty()
    } else {
        let prev = texts_of(items.drop_last());
        match as_text(items.last()) {
            Some(t) => prev.push(t),
            None => prev,
        }
    }
}

/// A `dockerComposeFile` field read as a list: a single string is a
/// one-element list, an array keeps its strings, anything else is empty.
pub open spec fn string_list(v: JsonValue) -> Seq<Seq<char>> {
    match v {
        JsonValue::String(s) => seq![s@],
        JsonValue::Array(items) => texts_of(items@),
        _ => Seq::empty(),
    }
}

/// One field of a `dockerComposeFile` — either a single path or an array.
pub fn json_to_string_list(value: &JsonValue) -> (r: Vec<String>)
    ensures
        r.deep_view() == string_list(*value),
{
    match value {
        JsonValue::String(s) => {
            let mut v = Vec::new();
            v.push(s.clone());
            proof {
                assert(v.deep_view() =~= seq![s@]);
            }
            v
        },
        JsonValue::Array(items) => {
            let mut v: Vec<String> = Vec::new();
            let mut i: usize = 0;
            while i < items.len()
                invariant
                    i <= items@.len(),
                    v.deep_view() == texts_of(items@.take(i as int)),
                decreases items@.len() - i,
            {
                assert(items@.take(i + 1).drop_last() =~= items@.take(i as int));
                match text_of(&items[i]) {
                    Some(t) => {
                        v.push(t);
                    },
                    None => {},
                }
                assert(v.deep_view() =~= texts_of(items@.take(i + 1)));
                i = i + 1;
            }
            assert(items@.take(i as int) =~= items@);
            v
        },
        _ => {
            let v: Vec<String> = Vec::new();
            assert(v.deep_view() =~= Seq::<Seq<char>>::empty());
            v
        },
    }
}

/// Classify a devcontainer.json object by its top-level fields.
pub fn classify(obj: &Vec<(String, JsonValue)>) -> (r: ConfigKind)
    ensures
        r == config_kind(obj@),
{
    if get_member(obj, "dockerComposeFile").is_some() {
        return ConfigKind::Compose;
    }
    let has_dockerfile = get_member(obj, "dockerFile").is_some() || match get_member(obj, "build") {
        Some(JsonValue::Object(b)) => get_member(b, "dockerfile").is_some() || get_member(
            b,
            "dockerFile",
        ).is_some(),
        _ => false,
    };
    if has_dockerfile {
        return ConfigKind::Dockerfile;
    }
    if get_member(obj, "image").is_some() {
        return ConfigKind::Image;
    }
    ConfigKind::Unknown
}

/// One discovered devcontainer.json with a best-effort summary of its
/// top-level fields. `path` is relative to the workspace folder.
#[derive(Debug, Clone)]
pub struct DiscoveredConfig {
    pub path: String,
    pub name: Option<String>,
    pub image: Option<String>,
    pub service: Option<String>,
    pub docker_compose_file: Vec<String>,
    pub workspace_folder: Option<String>,
    pub kind: ConfigKind,
    /// When parsing fails, the entry still appears with the error message
    /// here and all other fields empty.
    pub error: Option<String>,
}

/// Mathematical view of a [`DiscoveredConfig`].
pub struct DiscoveredModel {
    pub path: Seq<char>,
    pub name: Option<Seq<char>>,
    pub image: Option<Seq<char>>,
    pub service: Option<Seq<char>>,
    pub docker_compose_file: Seq<Seq<char>>,
    pub workspace_folder: Option<Seq<char>>,
    pub kind: ConfigKind,
    pub error: Option<Seq<char>>,
}

impl View for DiscoveredConfig {
    type V = DiscoveredModel;

    open spec fn view(&self) -> DiscoveredModel {
        DiscoveredModel {
            path: self.path@,
            name: self.name.deep_view(),
            image: self.image.deep_view(),
            service: self.service.deep_view(),
            docker_compose_file: self.docker_compose_file.deep_view(),
            workspace_folder: self.workspace_folder.deep_view(),
            kind: self.kind,
            error: self.error.deep_view(),
        }
    }
}

/// The entry reported for a config that could not be read or parsed.
pub open spec fn failed_model(path: Seq<char>, error: Seq<char>) -> DiscoveredModel {
    DiscoveredModel {
        path,
        name: None,
        image: None,
        service: None,
        docker_compose_file: Seq::empty(),
        workspace_folder: None,
        kind: ConfigKind::Unknown,
        error: Some(error),
    }
}

/// The summary of a parsed devcontainer.json at `path`.
pub open spec fn discovered_model(path: Seq<char>, value: JsonValue) -> DiscoveredModel {
    match value {
        JsonValue::Object(entries) => DiscoveredModel {
            path,
            name: member_text(entries@, "name"@),
            image: member_text(entries@, "image"@),
            service: member_text(entries@, "service"@),
            docker_compose_file: match object_get(entries@, "dockerComposeFile"@) {
                Some(v) => string_list(v),
                None => Seq::empty(),
            },
            workspace_folder: member_text(entries@, "workspaceFolder"@),
            kind: config_kind(entries@),
            error: None,
        },
        _ => failed_model(path, "top-level value is not an object"@),
    }
}

/// The summary of a parsed document reports what the document says: each
/// of `name`, `image`, `service` and `workspaceFolder` that is a top-level
/// string member is reported with that string, and a field is reported
/// only when such a member exists. A document with an `image` and neither
/// compose nor Dockerfile members is an image config. An object is never
/// reported as failed, and the path is kept.
pub proof fn law_summary_reports_the_document(
    path: Seq<char>,
    value: JsonValue,
    name: String,
    image: String,
    service: String,
    folder: String,
)
    ensures
        discovered_model(path, value).path == path,
        value is Object ==> discovered_model(path, value).error is None,
        value_get(value, "name"@) == Some(JsonValue::String(name)) ==> discovered_model(path, value).name
            == Some(name@),
        value_get(value, "image"@) == Some(JsonValue::String(image)) ==> discovered_model(path, value).image
            == Some(image@),
        value_get(value, "service"@) == Some(JsonValue::String(service)) ==> discovered_model(
            path,
            value,
        ).service == Some(service@),
        value_get(value, "workspaceFolder"@) == Some(JsonValue::String(folder)) ==> discovered_model(
            path,
            value,
        ).workspace_folder == Some(folder@),
        discovered_model(path, value).image is Some ==> (value_get(value, "image"@) matches Some(
            JsonValue::String(_),
        )),
        value_get(value, "image"@) is Some && value_get(value, "dockerComposeFile"@) is None && value_get(
            value,
            "dockerFile"@,
        ) is None && value_get(value, "build"@) is None ==> discovered_model(path, value).kind
            == ConfigKind::Image,
{
}

/// The entry for a config at `path` that could not be read or parsed.
pub fn failed_entry(path: String, error: String) -> (r: DiscoveredConfig)
    ensures
        r@ == failed_model(path@, error@),
{
    let r = DiscoveredConfig {
        path,
        name: None,
        image: None,
        service: None,
        docker_compose_file: Vec::new(),
        workspace_folder: None,
        kind: ConfigKind::Unknown,
        error: Some(error),
    };
    assert(r@.docker_compose_file =~= Seq::<Seq<char>>::empty());
    r
}

/// Build a [`DiscoveredConfig`] from a parsed document. Missing or
/// wrong-typed fields are skipped, not errors.
pub fn build_discovered(rel_path: String, value: &JsonValue) -> (r: DiscoveredConfig)
    ensures
        r@ == discovered_model(rel_path@, *value),
{
    match value {
        JsonValue::Object(obj) => {
            let compose = match get_member(obj, "dockerComposeFile") {
                Some(v) => json_to_string_list(v),
                None => {
                    let v: Vec<String> = Vec::new();
                    assert(v.deep_view() =~= Seq::<Seq<char>>::empty());
                    v
                },
            };
            DiscoveredConfig {
                path: rel_path,
                name: member_string(obj, "name"),
                image: member_string(obj, "image"),
                service: member_string(obj, "service"),
                docker_compose_file: compose,
                workspace_folder: member_string(obj, "workspaceFolder"),
                kind: classify(obj),
                error: None,
            }
        },
        _ => failed_entry(rel_path, String::from_str("top-level value is not an object")),
    }
}

/// The devcontainer.json paths to read under `workspace`, in priority
/// order: the root `.devcontainer.json` and `.devcontainer/devcontainer.json`
/// when they are files, then the `devcontainer.json` of each sub-folder of
/// `.devcontainer` that holds one (`subdirs`), sub-folders sorted.
pub open spec fn candidate_list(workspace: Seq<char>, root_dotfile: bool, root_in_dir: bool, subdirs: Seq<Seq<char>>) -> Seq<Seq<char>> {
    (if root_dotfile { seq![path_join(workspace, ".devcontainer.json"@)] } else { Seq::empty() })
        + (if root_in_dir { seq![path_join(path_join(workspace, ".devcontainer"@), "devcontainer.json"@)] } else { Seq::empty() })
        + sorted_texts(subdirs).map_values(|d: Seq<char>| path_join(d, "devcontainer.json"@))
}

/// The devcontainer.json paths to read, in priority order.
pub fn candidate_paths(workspace: &str, root_dotfile: bool, root_in_dir: bool, subdirs: Vec<String>) -> (r: Vec<String>)
    ensures
        r.deep_view() == candidate_list(workspace@, root_dotfile, root_in_dir, subdirs.deep_view()),
{
    let mut out: Vec<String> = Vec::new();
    if root_dotfile {
        out.push(join_path(workspace, ".devcontainer.json"));
    }
    if root_in_dir {
        let dc_dir = join_path(workspace, ".devcontainer");
        out.push(join_path(dc_dir.as_str(), "devcontainer.json"));
    }
    let ghost head = out.deep_view();
    assert(head =~= (if root_dotfile { seq![path_join(workspace@, ".devcontainer.json"@)] } else { Seq::empty() })
        + (if root_in_dir { seq![path_join(path_join(workspace@, ".devcontainer"@), "devcontainer.json"@)] } else { Seq::empty() }));
    let sorted = sort_texts(subdirs);
    let ghost tail = sorted.deep_view().map_values(|d: Seq<char>| path_join(d, "devcontainer.json"@));
    let mut i: usize = 0;
    while i < sorted.len()
        invariant
            i <= sorted@.len(),
            tail == sorted.deep_view().map_values(|d: Seq<char>| path_join(d, "devcontainer.json"@)),
            out.deep_view() == head + tail.take(i as int),
        decreases sorted@.len() - i,
    {
        let ghost before = out.deep_view();
        let p = join_path(sorted[i].as_str(), "devcontainer.json");
        assert(sorted@[i as int]@ == sorted.deep_view()[i as int]);
        assert(p@ == tail[i as int]);
        out.push(p);
        assert(out.deep_view() =~= before.push(p@));
        assert(tail.take(i + 1) =~= tail.take(i as int).push(tail[i as int]));
        assert(out.deep_view() =~= head + tail.take(i + 1));
        i = i + 1;
    }
    assert(tail.take(i as int) =~= tail);
    out
}

/// What `std::path::Path::strip_prefix` gives for `path` and `base`, as
/// text: the rest of `path` after the components of `base`, or nothing when
/// `base` is not a prefix of it.
pub uninterp spec fn path_strip_prefix(path: Seq<char>, base: Seq<char>) -> Option<Seq<char>>;

/// `Path::new(path).strip_prefix(base)`, rendered as text. Trusted: the
/// result is what `path_strip_prefix` names for the two texts (a path made
/// from a `&str` renders back without loss).
#[verifier::external_body]
fn strip_path_prefix(path: &str, base: &str) -> (r: Option<String>)
    ensures
        r.deep_view() == path_strip_prefix(path@, base@),
{
    match std::path::Path::new(path).strip_prefix(base) {
        Ok(rest) => Some(rest.to_string_lossy().into_owned()),
        Err(_) => None,
    }
}

/// `abs` relative to `base`, or `abs` itself when it is not inside `base`.
pub fn rel_to(abs: &str, base: &str) -> (r: String)
    ensures
        r@ == rel_path(abs@, base@),
{
    match strip_path_prefix(abs, base) {
        Some(rest) => rest,
        None => String::from_str(abs),
    }
}

/// What reading one candidate config gave.
#[derive(Debug)]
pub enum ConfigRead {
    /// The file read and parsed as JSONC.
    Parsed(JsonValue),
    /// The file read but did not parse; the parser's message.
    ParseFailed(String),
    /// The file could not be read; the I/O error's message.
    ReadFailed(String),
}

/// The listed entry for the config at `rel_path`, from what reading it gave.
pub open spec fn listed_model(rel_path: Seq<char>, read: ConfigRead) -> DiscoveredModel {
    match read {
        ConfigRead::Parsed(v) => discovered_model(rel_path, v),
        ConfigRead::ParseFailed(e) => failed_model(rel_path, "JSONC parse error: "@ + e@),
        ConfigRead::ReadFailed(e) => failed_model(rel_path, "read error: "@ + e@),
    }
}

/// The entry `list_configs` reports for one candidate.
pub fn listed_entry(rel_path: String, read: ConfigRead) -> (r: DiscoveredConfig)
    ensures
        r@ == listed_model(rel_path@, read),
{
    match read {
        ConfigRead::Parsed(v) => build_discovered(rel_path, &v),
        ConfigRead::ParseFailed(e) => failed_entry(rel_path, concat("JSONC parse error: ", e.as_str())),
        ConfigRead::ReadFailed(e) => failed_entry(rel_path, concat("read error: ", e.as_str())),
    }
}

/// `abs` relative to `base`, or `abs` itself when it is not inside `base`.
pub open spec fn rel_path(abs: Seq<char>, base: Seq<char>) -> Seq<char> {
    match path_strip_prefix(abs, base) {
        Some(rest) => rest,
        None => abs,
    }
}

/// The listing of a workspace from what reading each candidate config gave
/// (`reads`, in candidate order, each with its absolute path): exactly one
/// entry per candidate, in the same order, its path relative to
/// `workspace_abs`, whether the file parsed or not. Listing never fails.
pub fn list_entries(workspace_abs: &str, reads: Vec<(String, ConfigRead)>) -> (r: Vec<DiscoveredConfig>)
    ensures
        r@.len() == reads@.len(),
        forall|k: int|
            0 <= k < reads@.len() ==> (#[trigger] r@[k])@ == listed_model(
                rel_path(reads@[k].0@, workspace_abs@),
                reads@[k].1,
            ),
{
    let ghost all = reads@;
    let mut rest = reads;
    let mut out: Vec<DiscoveredConfig> = Vec::new();
    let ghost mut k: int = 0;
    while rest.len() > 0
        invariant
            0 <= k <= all.len(),
            rest@ == all.skip(k),
            out@.len() == k,
            forall|t: int|
                0 <= t < k ==> (#[trigger] out@[t])@ == listed_model(rel_path(all[t].0@, workspace_abs@), all[t].1),
        decreases rest@.len(),
    {
        let (abs, read) = rest.remove(0);
        proof {
            assert((abs, read) == all[k]);
            assert(rest@ =~= all.skip(k + 1));
        }
        let rel = rel_to(abs.as_str(), workspace_abs);
        let entry = listed_entry(rel, read);
        out.push(entry);
        proof {
            k = k + 1;
        }
    }
    out
}

/// Resolved view of a devcontainer.json used by the container lookup.
/// `compose_files_abs` holds every `dockerComposeFile` entry joined onto the
/// config's directory; the caller canonicalizes them on disk.
#[derive(Debug, Clone)]
pub struct ResolvedConfig {
    pub abs_path: String,
    pub service: Option<String>,
    pub compose_files_abs: Vec<String>,
    pub kind: ConfigKind,
}

/// Mathematical view of a [`ResolvedConfig`].
pub struct ResolvedModel {
    pub abs_path: Seq<char>,
    pub service: Option<Seq<char>>,
    pub compose_files_abs: Seq<Seq<char>>,
    pub kind: ConfigKind,
}

impl View for ResolvedConfig {
    type V = ResolvedModel;

    open spec fn view(&self) -> ResolvedModel {
        ResolvedModel {
            abs_path: self.abs_path@,
            service: self.service.deep_view(),
            compose_files_abs: self.compose_files_abs.deep_view(),
            kind: self.kind,
        }
    }
}

/// The resolution of the config at `abs_path`, whose directory is
/// `config_dir`, from its parsed document: an error message when the
/// document is not an object.
pub open spec fn resolved_model(abs_path: Seq<char>, config_dir: Seq<char>, value: JsonValue) -> Result<
    ResolvedModel,
    Seq<char>,
> {
    match value {
        JsonValue::Object(entries) => Ok(
            ResolvedModel {
                abs_path,
                service: member_text(entries@, "service"@),
                compose_files_abs: match object_get(entries@, "dockerComposeFile"@) {
                    Some(v) => string_list(v).map_values(|e: Seq<char>| path_join(config_dir, e)),
                    None => Seq::empty(),
                },
                kind: config_kind(entries@),
            },
        ),
        _ => Err("top-level value is not an object in "@ + abs_path),
    }
}

/// Resolve a parsed devcontainer.json into a [`ResolvedConfig`];
/// `dockerComposeFile` entries are resolved against the config's directory.
pub fn resolve_parsed_config(abs_path: &str, config_dir: &str, value: &JsonValue) -> (r: Result<
    ResolvedConfig,
    String,
>)
    ensures
        match r {
            Ok(c) => resolved_model(abs_path@, config_dir@, *value) == Ok::<ResolvedModel, Seq<char>>(c@),
            Err(e) => resolved_model(abs_path@, config_dir@, *value) == Err::<ResolvedModel, Seq<char>>(e@),
        },
{
    match value {
        JsonValue::Object(obj) => {
            let entries = match get_member(obj, "dockerComposeFile") {
                Some(v) => json_to_string_list(v),
                None => Vec::new(),
            };
            let ghost listed = entries.deep_view();
            let mut files: Vec<String> = Vec::new();
            let mut i: usize = 0;
            while i < entries.len()
                invariant
                    i <= entries@.len(),
                    listed == entries.deep_view(),
                    files.deep_view() == listed.take(i as int).map_values(
                        |e: Seq<char>| path_join(config_dir@, e),
                    ),
                decreases entries@.len() - i,
            {
                let ghost before = files.deep_view();
                let joined = join_path(config_dir, entries[i].as_str());
                assert(listed[i as int] == entries@[i as int]@);
                files.push(joined);
                assert(files.deep_view() =~= before.push(joined@));
                assert(files.deep_view() =~= listed.take(i + 1).map_values(
                    |e: Seq<char>| path_join(config_dir@, e),
                ));
                i = i + 1;
            }
            assert(listed.take(i as int) =~= listed);
            proof {
                if object_get(obj@, "dockerComposeFile"@) is None {
                    assert(files.deep_view() =~= Seq::<Seq<char>>::empty());
                }
            }
            Ok(
                ResolvedConfig {
                    abs_path: String::from_str(abs_path),
                    service: member_string(obj, "service"),
                    compose_files_abs: files,
                    kind: classify(obj),
                },
            )
        },
        _ => {
            let mut msg = String::from_str("top-level value is not an object in ");
            msg.append(abs_path);
            Err(msg)
        },
    }
}

/// The label filters a resolved config implies, ordered by label name:
/// the compose service (when set) and the config file path.
pub open spec fn expected_label_pairs(resolved: ResolvedModel) -> Seq<(Seq<char>, Seq<char>)> {
    match resolved.service {
        Some(s) => seq![
            ("com.docker.compose.service"@, s),
            ("devcontainer.config_file"@, resolved.abs_path),
        ],
        None => seq![("devcontainer.config_file"@, resolved.abs_path)],
    }
}

/// Label filters derived from a [`ResolvedConfig`], sorted by label name.
pub fn expected_labels(resolved: &ResolvedConfig) -> (r: Vec<(String, String)>)
    ensures
        r@.map_values(|p: (String, String)| (p.0@, p.1@)) == expected_label_pairs(resolved@),
{
    let mut out: Vec<(String, String)> = Vec::new();
    match &resolved.service {
        Some(svc) => {
            out.push((String::from_str("com.docker.compose.service"), svc.clone()));
        },
        None => {},
    }
    out.push((String::from_str("devcontainer.config_file"), resolved.abs_path.clone()));
    assert(out@.map_values(|p: (String, String)| (p.0@, p.1@)) =~= expected_label_pairs(
        resolved@,
    ));
    out
}

} // verus!
