//! The layout of an image directory: whether a directory is one, may become
//! one or must be left alone, and what makes an empty directory a store.

use vstd::prelude::*;
use vstd::string::StringExecFns;

verus! {

/// The name of the file that marks an image directory.
pub const OCI_LAYOUT_PATH: &'static str = "oci-layout";

/// The one layout version that this store knows.
pub const OCI_LAYOUT_VERSION: &'static str = "1.0.0";

/// The name of the index of an image directory.
pub const INDEX_PATH: &'static str = "index.json";

/// The directory of the blobs, relative to the root of the store.
pub const BLOBS_PATH: &'static str = "blobs/sha256";

/// The schema version that an index records.
pub const SCHEMA_VERSION: u32 = 2;

/// The member of a marker that holds the layout version.
pub const VERSION_KEY: &'static str = "imageLayoutVersion";

/// The content of a layout marker.
#[derive(Debug, Clone, PartialEq, Eq)]
pub struct OciImageLayout {
    /// The version of the layout, the member `imageLayoutVersion` of the file.
    pub version: String,
}

impl Default for OciImageLayout {
    /// The marker of a store that this library lays out.
    fn default() -> (layout: OciImageLayout)
        ensures
            layout.version@ == OCI_LAYOUT_VERSION@,
    {
        OciImageLayout { version: String::from_str(OCI_LAYOUT_VERSION) }
    }
}

/// Why a directory was not made or taken as a store.
#[derive(Debug, Clone, PartialEq, Eq)]
pub enum LayoutError {
    /// The marker names a layout version that this store does not know.
    UnrecognizedVersion { version: String },
    /// The directory holds something, and no marker.
    NotImageDirectory,
    /// The path is there and its entries cannot be listed.
    Unreadable,
    /// A document of a new store could not be encoded.
    Encoding,
}

/// What was found at the path of a store.
#[derive(Debug, Clone, PartialEq, Eq)]
pub enum Observed {
    /// Nothing is there.
    Missing,
    /// Something is there, and its entries cannot be listed.
    Unreadable,
    /// A directory, with the names of its entries.
    Listed(Vec<String>),
}

/// What is to be done with the path of a store.
#[derive(Debug, Clone, Copy, PartialEq, Eq)]
pub enum Plan {
    /// Create the directory, then lay a store out in it.
    CreateAndInitialize,
    /// Lay a store out in the directory, which is empty.
    Initialize,
    /// Read the marker and hold it against `check_marker`; touch nothing.
    ReadMarker,
}

/// Whether one of `names` is the marker's.
pub open spec fn has_marker(names: Seq<String>) -> bool {
    exists|i: int| 0 <= i < names.len() && (#[trigger] names[i])@ == OCI_LAYOUT_PATH@
}

/// The rule by which a path is made a store, taken as one, or refused.
pub open spec fn plan_for(observed: Observed) -> Result<Plan, LayoutError> {
    match observed {
        Observed::Missing => Ok(Plan::CreateAndInitialize),
        Observed::Unreadable => Err(LayoutError::Unreadable),
        Observed::Listed(names) => if has_marker(names@) {
            Ok(Plan::ReadMarker)
        } else if names@.len() == 0 {
            Ok(Plan::Initialize)
        } else {
            Err(LayoutError::NotImageDirectory)
        },
    }
}

/// Looks for the marker among the names of a directory's entries.
pub fn find_marker(names: &Vec<String>) -> (found: bool)
    ensures
        found == has_marker(names@),
{
    let marker = String::from_str(OCI_LAYOUT_PATH);
    let mut i: usize = 0;
    while i < names.len()
        invariant
            i <= names.len(),
            marker@ == OCI_LAYOUT_PATH@,
            forall|j: int| 0 <= j < i ==> (#[trigger] names@[j])@ != OCI_LAYOUT_PATH@,
        decreases names.len() - i,
    {
        if names[i] == marker {
            return true;
        }
        i = i + 1;
    }
    false
}

/// Decides from what was found at a path what is to be done with it.
///
/// A missing path and an empty directory become stores. A directory with a
/// marker is taken as it is, once the marker has been checked. A directory
/// that holds something and no marker is refused, and is not to be touched.
pub fn survey(observed: &Observed) -> (r: Result<Plan, LayoutError>)
    ensures
        r == plan_for(*observed),
{
    match observed {
        Observed::Missing => Ok(Plan::CreateAndInitialize),
        Observed::Unreadable => Err(LayoutError::Unreadable),
        Observed::Listed(names) => if find_marker(names) {
            Ok(Plan::ReadMarker)
        } else if names.len() == 0 {
            Ok(Plan::Initialize)
        } else {
            Err(LayoutError::NotImageDirectory)
        },
    }
}

/// Holds the marker of a directory against the version that this store knows.
/// Any other version is refused, and reported.
pub fn check_marker(layout: &OciImageLayout) -> (r: Result<(), LayoutError>)
    ensures
        layout.version@ == OCI_LAYOUT_VERSION@ ==> r is Ok,
        layout.version@ != OCI_LAYOUT_VERSION@ ==> (r matches Err(
            LayoutError::UnrecognizedVersion { version },
        ) && version@ == layout.version@),
{
    let known = String::from_str(OCI_LAYOUT_VERSION);
    if layout.version == known {
        Ok(())
    } else {
        Err(LayoutError::UnrecognizedVersion { version: layout.version.clone() })
    }
}

/// A step in laying out a store. Paths are relative to the root of the store.
#[derive(Debug, Clone, PartialEq, Eq)]
pub enum Action {
    /// Create the root directory, and the directories above it that are missing.
    CreateRoot,
    /// Create a directory, and the directories above it that are missing.
    CreateDir { path: String },
    /// Create a file with the given content.
    WriteFile { path: String, content: String },
}

/// A step as a mathematical value.
pub enum ActionView {
    CreateRoot,
    CreateDir { path: Seq<char> },
    WriteFile { path: Seq<char>, content: Seq<char> },
}

impl View for Action {
    type V = ActionView;

    open spec fn view(&self) -> ActionView {
        match *self {
            Action::CreateRoot => ActionView::CreateRoot,
            Action::CreateDir { path } => ActionView::CreateDir { path: path@ },
            Action::WriteFile { path, content } => ActionView::WriteFile {
                path: path@,
                content: content@,
            },
        }
    }
}

/// The steps of a list, each as a mathematical value.
pub open spec fn views(actions: Seq<Action>) -> Seq<ActionView> {
    Seq::new(actions.len(), |i: int| actions[i]@)
}

/// Whether JSON writes a character of a string as it is.
pub open spec fn json_plain(c: char) -> bool {
    c != '"' && c != '\\' && c >= ' '
}

/// Whether JSON writes every character of `text` as it is.
pub open spec fn json_plain_text(text: Seq<char>) -> bool {
    forall|i: int| 0 <= i < text.len() ==> json_plain(#[trigger] text[i])
}

/// A JSON object with one member, a string, written without any space, where
/// the name and the value hold only characters that JSON writes as they are.
pub open spec fn json_object_text(key: Seq<char>, value: Seq<char>) -> Seq<char> {
    seq!['{', '"'] + key + seq!['"', ':', '"'] + value + seq!['"', '}']
}

/// The character of a decimal digit.
pub open spec fn decimal_digit(digit: nat) -> char {
    (0x30 + digit) as u8 as char
}

/// A number in decimal digits, without a sign and without leading zeros.
pub open spec fn decimal(number: nat) -> Seq<char>
    decreases number,
{
    if number < 10 {
        seq![decimal_digit(number)]
    } else {
        decimal(number / 10).push(decimal_digit(number % 10))
    }
}

/// The JSON text of an image index without manifests: the schema version and
/// an empty list, written without any space.
pub open spec fn empty_index_text(schema_version: u32) -> Seq<char> {
    "{\"schemaVersion\":"@ + decimal(schema_version as nat) + ",\"manifests\":[]}"@
}

/// What a marker file of this store holds.
pub open spec fn marker_text() -> Seq<char> {
    json_object_text(VERSION_KEY@, OCI_LAYOUT_VERSION@)
}

/// `serde_json::to_string` on an object with one member whose value is a
/// string. It does not fail on such a value. Where the name and the value need
/// no escaping, the text is a brace, the quoted name, a colon, the quoted value
/// and a brace.
#[verifier::external_body]
fn json_object(key: &str, value: &str) -> (r: Option<String>)
    requires
        json_plain_text(key@),
        json_plain_text(value@),
    ensures
        r is Some,
        r matches Some(text) ==> text@ == json_object_text(key@, value@),
{
    let mut object = serde_json::Map::new();
    object.insert(key.to_string(), serde_json::Value::String(value.to_string()));
    serde_json::to_string(&serde_json::Value::Object(object)).ok()
}

/// `ImageIndexBuilder` of `oci_spec` with no manifests and the given schema
/// version, then `serde_json::to_string` on the index that it builds. Neither
/// fails: the builder has both fields that it asks for, and the index holds
/// nothing that cannot be written. The text names the schema version in
/// decimal digits, then the empty list of manifests; the members that are not
/// set are left out.
#[verifier::external_body]
fn empty_index(schema_version: u32) -> (r: Option<String>)
    ensures
        r is Some,
        r matches Some(text) ==> text@ == empty_index_text(schema_version),
{
    let index = oci_spec::image::ImageIndexBuilder::default()
        .manifests(Vec::new())
        .schema_version(schema_version)
        .build()
        .ok()?;
    serde_json::to_string(&index).ok()
}

/// The steps that make an empty directory a store, in their order, for the
/// given contents of the marker and of the index.
pub open spec fn init_actions_of(marker: Seq<char>, index: Seq<char>) -> Seq<ActionView> {
    seq![
        ActionView::CreateDir { path: BLOBS_PATH@ },
        ActionView::WriteFile { path: OCI_LAYOUT_PATH@, content: marker },
        ActionView::WriteFile { path: INDEX_PATH@, content: index },
    ]
}

/// Lists the steps that make an empty directory a store: the directory of the
/// blobs first, then the marker, then the index.
pub fn init_actions(marker: String, index: String) -> (actions: Vec<Action>)
    ensures
        views(actions@) == init_actions_of(marker@, index@),
{
    let mut actions: Vec<Action> = Vec::new();
    actions.push(Action::CreateDir { path: String::from_str(BLOBS_PATH) });
    actions.push(Action::WriteFile { path: String::from_str(OCI_LAYOUT_PATH), content: marker });
    actions.push(Action::WriteFile { path: String::from_str(INDEX_PATH), content: index });
    assert(views(actions@) =~= init_actions_of(marker@, index@));
    actions
}

/// The marker of a new store, as JSON text.
pub fn marker_document() -> (r: Option<String>)
    ensures
        r matches Some(text) && text@ == marker_text(),
{
    let layout = OciImageLayout::default();
    proof {
        reveal_strlit("imageLayoutVersion");
        reveal_strlit("1.0.0");
    }
    json_object(VERSION_KEY, layout.version.as_str())
}

/// Takes the two documents of a new store as their encoders gave them, and
/// lists the steps that make an empty directory a store. Where a document is
/// missing, nothing is to be done but to report it.
pub fn init_dir_with(marker: Option<String>, index: Option<String>) -> (r: Result<
    Vec<Action>,
    LayoutError,
>)
    ensures
        match (marker, index) {
            (Some(m), Some(i)) => r matches Ok(actions) && views(actions@) == init_actions_of(
                m@,
                i@,
            ),
            _ => r == Err::<Vec<Action>, LayoutError>(LayoutError::Encoding),
        },
{
    match marker {
        Some(marker) => match index {
            Some(index) => Ok(init_actions(marker, index)),
            None => Err(LayoutError::Encoding),
        },
        None => Err(LayoutError::Encoding),
    }
}

/// The steps that make an empty directory a store: the directory of the blobs,
/// the marker with the known version, and an index without manifests.
pub fn init_dir() -> (r: Result<Vec<Action>, LayoutError>)
    ensures
        r matches Ok(actions) && views(actions@) == init_actions_of(
            marker_text(),
            empty_index_text(SCHEMA_VERSION),
        ),
        marker_text() == "{\"imageLayoutVersion\":\"1.0.0\"}"@,
        empty_index_text(SCHEMA_VERSION) == "{\"schemaVersion\":2,\"manifests\":[]}"@,
{
    proof {
        lemma_marker_text();
        lemma_index_text();
    }
    init_dir_with(marker_document(), empty_index(SCHEMA_VERSION))
}

/// What the caller of `init_image_directory` is to do.
#[derive(Debug, Clone, PartialEq, Eq)]
pub enum Step {
    /// Perform these in their order and stop at the first that fails: the path
    /// is then a store.
    Perform(Vec<Action>),
    /// Read the marker and hold it against `check_marker`: if that accepts it,
    /// the directory is a store as it is.
    ReadMarker,
}

/// The steps that a plan asks for, for the given contents of the marker and of
/// the index: none where a marker is to be read, and the same for a new
/// directory as for an empty one, after the directory has been created.
pub open spec fn actions_for(plan: Plan, marker: Seq<char>, index: Seq<char>) -> Seq<ActionView> {
    match plan {
        Plan::CreateAndInitialize => seq![ActionView::CreateRoot] + init_actions_of(marker, index),
        Plan::Initialize => init_actions_of(marker, index),
        Plan::ReadMarker => Seq::empty(),
    }
}

/// Makes a path an image directory where that is called for: decides from what
/// was found there whether to lay a store out, to take the directory as the
/// store that its marker declares, or to refuse it.
///
/// A directory that holds something and no marker is refused without a step.
pub fn init_image_directory(observed: &Observed) -> (r: Result<Step, LayoutError>)
    ensures
        match plan_for(*observed) {
            Err(e) => r == Err::<Step, LayoutError>(e),
            Ok(Plan::ReadMarker) => r == Ok::<Step, LayoutError>(Step::ReadMarker),
            Ok(plan) => r matches Ok(Step::Perform(actions)) && views(actions@) == actions_for(
                plan,
                marker_text(),
                empty_index_text(SCHEMA_VERSION),
            ),
        },
        marker_text() == "{\"imageLayoutVersion\":\"1.0.0\"}"@,
        empty_index_text(SCHEMA_VERSION) == "{\"schemaVersion\":2,\"manifests\":[]}"@,
{
    proof {
        lemma_marker_text();
        lemma_index_text();
    }
    match survey(observed) {
        Err(e) => Err(e),
        Ok(Plan::ReadMarker) => Ok(Step::ReadMarker),
        Ok(Plan::Initialize) => match init_dir() {
            Ok(actions) => Ok(Step::Perform(actions)),
            Err(e) => Err(e),
        },
        Ok(Plan::CreateAndInitialize) => match init_dir() {
            Ok(actions) => {
                let mut all: Vec<Action> = Vec::new();
                all.push(Action::CreateRoot);
                let mut rest = actions;
                all.append(&mut rest);
                assert(views(all@) =~= seq![ActionView::CreateRoot] + views(actions@));
                Ok(Step::Perform(all))
            },
            Err(e) => Err(e),
        },
    }
}

/// A path that was missing and a directory that was empty get the same marker
/// and the same index, and the directory of the blobs before both.
pub proof fn lemma_init_is_the_same(marker: Seq<char>, index: Seq<char>)
    ensures
        actions_for(Plan::CreateAndInitialize, marker, index) == seq![ActionView::CreateRoot]
            + actions_for(Plan::Initialize, marker, index),
        actions_for(Plan::Initialize, marker, index) == seq![
            ActionView::CreateDir { path: BLOBS_PATH@ },
            ActionView::WriteFile { path: OCI_LAYOUT_PATH@, content: marker },
            ActionView::WriteFile { path: INDEX_PATH@, content: index },
        ],
{
}

/// A directory that holds something and no marker is never laid out: the rule
/// refuses it, whatever else it holds.
pub proof fn lemma_foreign_directory_refused(names: Vec<String>)
    requires
        names@.len() > 0,
        !has_marker(names@),
    ensures
        plan_for(Observed::Listed(names)) == Err::<Plan, LayoutError>(
            LayoutError::NotImageDirectory,
        ),
{
}

/// What the index of a new store holds.
pub proof fn lemma_index_text()
    ensures
        empty_index_text(SCHEMA_VERSION) == "{\"schemaVersion\":2,\"manifests\":[]}"@,
{
    reveal_strlit("{\"schemaVersion\":");
    reveal_strlit(",\"manifests\":[]}");
    reveal_strlit("{\"schemaVersion\":2,\"manifests\":[]}");
    assert(decimal(2) =~= seq!['2']);
    assert(empty_index_text(SCHEMA_VERSION) =~= "{\"schemaVersion\":2,\"manifests\":[]}"@);
}

/// What the marker of a new store holds.
pub proof fn lemma_marker_text()
    ensures
        marker_text() == "{\"imageLayoutVersion\":\"1.0.0\"}"@,
{
    reveal_strlit("imageLayoutVersion");
    reveal_strlit("1.0.0");
    reveal_strlit("{\"imageLayoutVersion\":\"1.0.0\"}");
    assert(marker_text() =~= "{\"imageLayoutVersion\":\"1.0.0\"}"@);
}

} // verus!
