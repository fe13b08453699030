//! The configuration editor: the text editor, the visual editor, and the page
//! that shows the configuration.

use crate::diff;
use crate::json;
use crate::text;
use crate::web;
use vstd::prelude::*;
use vstd::string::*;

verus! {

/// The page that shows the configuration; `C` is the engine's configuration.
pub struct SystemInfoTemplate<C> {
    pub config: Option<C>,
    pub chrome: web::Chrome,
}

/// Shows the configuration.
pub fn admin_system_info<C>(site: &web::Site, session: &web::UiSession, config: Option<C>) -> (r:
    web::Reply<SystemInfoTemplate<C>>)
    ensures
        r is Page && {
            let p = r->Page_0;
            &&& p.config == config
            &&& p.chrome.is_admin_page(*site, *session, "settings"@)
            &&& p.chrome.flash is None
        },
{
    web::Reply::Page(
        SystemInfoTemplate { config, chrome: web::Chrome::admin(site, session, "settings") },
    )
}

// ---------------------------------------------------------------------------
// The file and its conversions
// ---------------------------------------------------------------------------

/// What reading the configuration file gave.
pub enum ConfigFile {
    /// Its text.
    Content(String),
    /// The message of an error.
    Unreadable(String),
    /// There is no file.
    Absent,
}

/// The text to edit, and whether it can only be read.
pub open spec fn edited_text(file: ConfigFile) -> (Seq<char>, bool) {
    match file {
        ConfigFile::Content(s) => (s@, false),
        ConfigFile::Unreadable(e) => ("# Error reading config file: "@ + e@, true),
        ConfigFile::Absent => (
            "# No config file path available.\n# Running in embedded/dev mode.\n"@,
            true,
        ),
    }
}

/// Takes the text to edit from what reading the file gave. Without a text that
/// could be read there is a comment in its place, and no way to write it.
pub fn read_config_yaml(file: ConfigFile) -> (r: (String, bool))
    ensures
        (r.0@, r.1) == edited_text(file),
{
    match file {
        ConfigFile::Content(s) => (s, false),
        ConfigFile::Unreadable(e) => (
            "# Error reading config file: ".to_owned().concat(e.as_str()),
            true,
        ),
        ConfigFile::Absent => (
            "# No config file path available.\n# Running in embedded/dev mode.\n".to_owned(),
            true,
        ),
    }
}

/// The result of a conversion, each error told by the step that failed.
pub open spec fn told(
    converted: Result<Result<Seq<char>, Seq<char>>, Seq<char>>,
    reading: Seq<char>,
    writing: Seq<char>,
) -> Result<Seq<char>, Seq<char>> {
    match converted {
        Ok(Ok(s)) => Ok(s),
        Ok(Err(e)) => Err(writing + e),
        Err(e) => Err(reading + e),
    }
}

/// A result without its representation.
pub open spec fn result_text(r: Result<String, String>) -> Result<Seq<char>, Seq<char>> {
    match r {
        Ok(s) => Ok(s@),
        Err(e) => Err(e@),
    }
}

/// Tells the error of a conversion by the step that failed.
pub fn tell(
    converted: Result<Result<String, String>, String>,
    reading: &str,
    writing: &str,
) -> (r: Result<String, String>)
    ensures
        result_text(r) == told(json::steps_of(converted), reading@, writing@),
{
    match converted {
        Ok(Ok(s)) => Ok(s),
        Ok(Err(e)) => Err(writing.to_owned().concat(e.as_str())),
        Err(e) => Err(reading.to_owned().concat(e.as_str())),
    }
}

/// The state of the visual editor for a configuration.
pub open spec fn editor_state(yaml: Seq<char>) -> Result<Seq<char>, Seq<char>> {
    told(json::json_of_yaml(yaml), "YAML parse error: "@, "JSON serialization error: "@)
}

/// Converts a configuration to the state of the visual editor. Nothing is
/// substituted: references to the environment stay as they are.
pub fn yaml_to_editor_json(yaml: &str) -> (r: Result<String, String>)
    ensures
        result_text(r) == editor_state(yaml@),
{
    tell(json::convert_yaml(yaml), "YAML parse error: ", "JSON serialization error: ")
}

/// The configuration of a state of the visual editor.
pub open spec fn written_state(json: Seq<char>) -> Result<Seq<char>, Seq<char>> {
    told(json::yaml_of_json(json), "JSON→YAML conversion: "@, "YAML serialization error: "@)
}

/// Converts the state of the visual editor to a configuration.
pub fn editor_json_to_yaml(json: &str) -> (r: Result<String, String>)
    ensures
        result_text(r) == written_state(json@),
{
    tell(json::convert_json(json), "JSON→YAML conversion: ", "YAML serialization error: ")
}

// ---------------------------------------------------------------------------
// The field of an error
// ---------------------------------------------------------------------------

/// Whether a character may stand in the dotted path of a field.
pub open spec fn is_path_char(c: char) -> bool {
    ('a' <= c && c <= 'z') || ('A' <= c && c <= 'Z') || ('0' <= c && c <= '9') || c == '.' || c
        == '_'
}

/// Whether a text is the dotted path of a field.
pub open spec fn is_field_path(s: Seq<char>) -> bool {
    s.contains('.') && forall|k: int| 0 <= k < s.len() ==> is_path_char(#[trigger] s[k])
}

/// Whether the first `i` characters of a message are the path of a field, set
/// off by a colon and a blank.
pub open spec fn names_field(msg: Seq<char>, i: int) -> bool {
    text::occurs_at(msg, ": "@, i) && is_field_path(msg.take(i))
}

/// The field that a message is about, `_yaml` where it names none.
pub open spec fn error_field(msg: Seq<char>) -> Seq<char> {
    if exists|i: int| names_field(msg, i) {
        msg.take(choose|i: int| names_field(msg, i))
    } else {
        "_yaml"@
    }
}

/// A path holds no colon, so at most one prefix is set off by the first one.
proof fn lemma_one_field(msg: Seq<char>, i: int, j: int)
    requires
        text::occurs_at(msg, ": "@, i),
        names_field(msg, j),
    ensures
        j <= i,
{
    reveal_strlit(": ");
    if i < j {
        assert(msg.subrange(i, i + 2)[0] == ':');
        assert(msg.take(j)[i] == msg[i]);
        assert(is_path_char(msg.take(j)[i]));
    }
}

/// A message that starts with a path, a colon and a blank is about that field.
pub proof fn law_error_field(path: Seq<char>, rest: Seq<char>)
    requires
        is_field_path(path),
    ensures
        error_field(path + ": "@ + rest) == path,
{
    reveal_strlit(": ");
    let msg = path + ": "@ + rest;
    let n = path.len() as int;
    assert(msg.subrange(n, n + 2) =~= ": "@);
    assert(msg.take(n) =~= path);
    assert(names_field(msg, n));
    let i = choose|i: int| names_field(msg, i);
    lemma_one_field(msg, n, i);
    lemma_one_field(msg, i, n);
}

fn check_field_path(v: &Vec<char>) -> (r: bool)
    ensures
        r == is_field_path(v@),
{
    let mut dotted = false;
    let mut i: usize = 0;
    while i < v.len()
        invariant
            i <= v.len(),
            dotted == v@.take(i as int).contains('.'),
            forall|k: int| 0 <= k < i ==> is_path_char(#[trigger] v@[k]),
        decreases v.len() - i,
    {
        let c: char = v[i];
        let ok = ('a' <= c && c <= 'z') || ('A' <= c && c <= 'Z') || ('0' <= c && c <= '9') || c
            == '.' || c == '_';
        if !ok {
            proof {
                assert(!is_path_char(v@[i as int]));
            }
            return false;
        }
        proof {
            let before = v@.take(i as int);
            let after = v@.take(i + 1);
            assert(after =~= before.push(c));
            if before.contains('.') {
                let k = choose|k: int| 0 <= k < before.len() && before[k] == '.';
                assert(after[k] == '.');
            }
            if c == '.' {
                assert(after[i as int] == '.');
            }
            if after.contains('.') && c != '.' {
                let k = choose|k: int| 0 <= k < after.len() && after[k] == '.';
                assert(before[k] == '.');
            }
        }
        if c == '.' {
            dotted = true;
        }
        i += 1;
    }
    proof {
        assert(v@.take(v@.len() as int) =~= v@);
    }
    dotted
}

/// Takes the dotted path of the field that a message is about from its front.
pub fn field_from_parse_error(msg: &str) -> (r: String)
    ensures
        r@ == error_field(msg@),
{
    let chars = text::chars_of(msg);
    let separator = text::chars_of(": ");
    if let Some(i) = text::find(&chars, &separator) {
        let candidate = text::slice_string(&chars, 0, i);
        let letters = text::chars_of(candidate.as_str());
        proof {
            assert(candidate@ =~= msg@.take(i as int));
        }
        let named = check_field_path(&letters);
        proof {
            if exists|j: int| names_field(msg@, j) {
                let j = choose|j: int| names_field(msg@, j);
                lemma_one_field(msg@, i as int, j);
                assert(j == i);
            }
            if named {
                assert(names_field(msg@, i as int));
            }
        }
        if named {
            return candidate;
        }
    } else {
        proof {
            if exists|j: int| names_field(msg@, j) {
                let j = choose|j: int| names_field(msg@, j);
                assert(text::occurs_at(msg@, ": "@, j));
            }
        }
    }
    "_yaml".to_owned()
}

// ---------------------------------------------------------------------------
// The text editor
// ---------------------------------------------------------------------------

/// The editor's page.
pub struct ConfigEditorTemplate {
    pub yaml_content: String,
    /// The state of the visual editor.
    pub config_json: String,
    pub read_only: bool,
    pub chrome: web::Chrome,
}

impl ConfigEditorTemplate {
    /// Whether the page edits a text.
    pub open spec fn edits(
        self,
        site: web::Site,
        session: web::UiSession,
        yaml: Seq<char>,
        state: Result<Seq<char>, Seq<char>>,
        read_only: bool,
    ) -> bool {
        &&& self.yaml_content@ == yaml
        &&& self.config_json@ == json::or_empty_object(state.ok())
        &&& self.read_only == read_only
        &&& self.chrome.is_admin_page(site, session, "settings"@)
    }
}

/// Makes the editor's page from the state of the visual editor, which is empty
/// where the text cannot be converted.
pub fn editor_page(
    site: &web::Site,
    session: &web::UiSession,
    yaml_content: String,
    state: Result<String, String>,
    read_only: bool,
    flash: Option<web::Flash>,
) -> (r: ConfigEditorTemplate)
    ensures
        r.edits(*site, *session, yaml_content@, result_text(state), read_only),
        r.chrome.flash == flash,
{
    let state = match state {
        Ok(s) => Some(s),
        Err(_) => None,
    };
    ConfigEditorTemplate {
        yaml_content,
        config_json: json::object_or_empty(state),
        read_only,
        chrome: web::Chrome::new(site, session, "settings", true, false, flash),
    }
}

/// Query parameters of the editor.
pub struct ConfigEditorParams {
    pub flash: Option<String>,
    pub flash_kind: Option<String>,
}

/// Shows the editor.
pub fn admin_config_editor(
    site: &web::Site,
    session: &web::UiSession,
    params: &ConfigEditorParams,
    file: ConfigFile,
) -> (r: web::Reply<ConfigEditorTemplate>)
    ensures
        r is Page && {
            let p = r->Page_0;
            &&& p.edits(
                *site,
                *session,
                edited_text(file).0,
                editor_state(edited_text(file).0),
                edited_text(file).1,
            )
            &&& p.chrome.flash is Some == (params.flash is Some)
            &&& p.chrome.flash matches Some(f) ==> f.says(
                web::asked_kind(text::opt_text(params.flash_kind)),
                (params.flash->0)@,
            )
        },
{
    let (yaml_content, read_only) = read_config_yaml(file);
    let state = yaml_to_editor_json(yaml_content.as_str());
    let flash = web::flash_from_query(&params.flash, &params.flash_kind);
    web::Reply::Page(editor_page(site, session, yaml_content, state, read_only, flash))
}

/// The editor's form.
pub struct ConfigEditorForm {
    pub yaml: String,
    pub csrf: String,
}

/// The preview of a change.
pub struct DiffPreviewTemplate {
    pub diff: String,
    pub diff_lines: Vec<String>,
    pub error: Option<String>,
    pub product_name: String,
    pub logo_url: String,
    pub theme_css: String,
    pub realm_theme_css: Option<String>,
}

impl DiffPreviewTemplate {
    /// Whether the preview shows a diff, or an error and no diff.
    pub open spec fn shows(self, theme_css: Seq<char>, diff: Seq<char>, error: Option<Seq<char>>) -> bool {
        &&& self.diff@ == diff
        &&& text::texts(self.diff_lines@) == text::lines_of(diff)
        &&& text::opt_text(self.error) == error
        &&& self.product_name@ == Seq::<char>::empty()
        &&& self.logo_url@ == Seq::<char>::empty()
        &&& self.theme_css@ == theme_css
        &&& self.realm_theme_css is None
    }
}

fn preview(theme_css: &str, diff: String, error: Option<String>) -> (r: DiffPreviewTemplate)
    ensures
        r.shows(theme_css@, diff@, text::opt_text(error)),
{
    DiffPreviewTemplate {
        diff_lines: text::lines(diff.as_str()),
        diff,
        error,
        product_name: String::new(),
        logo_url: String::new(),
        theme_css: theme_css.to_owned(),
        realm_theme_css: None,
    }
}

/// The diff that a preview shows: none where the new text is no configuration.
pub open spec fn previewed(file: ConfigFile, new_yaml: Seq<char>, invalid: Option<String>) -> Seq<
    char,
> {
    if invalid is Some {
        Seq::empty()
    } else {
        diff::diff_text(edited_text(file).0, new_yaml)
    }
}

/// Previews a new text: what is wrong with it, or how it differs from the file.
pub fn admin_config_editor_preview(
    theme_css: &str,
    new_yaml: &str,
    invalid: Option<String>,
    file: ConfigFile,
) -> (r: web::Reply<DiffPreviewTemplate>)
    ensures
        r is Page && r->Page_0.shows(
            theme_css@,
            previewed(file, new_yaml@, invalid),
            text::opt_text(invalid),
        ),
{
    let diff = if invalid.is_some() {
        String::new()
    } else {
        let (old_yaml, _) = read_config_yaml(file);
        diff::compute_unified_diff(old_yaml.as_str(), new_yaml)
    };
    web::Reply::Page(preview(theme_css, diff, invalid))
}

/// Whether a reply is the editor with `yaml` in it and an error above.
pub open spec fn tells_in_editor(
    r: web::Reply<ConfigEditorTemplate>,
    site: web::Site,
    session: web::UiSession,
    yaml: Seq<char>,
    has_path: bool,
    error: Seq<char>,
) -> bool {
    r is Page && r->Page_0.edits(site, session, yaml, editor_state(yaml), !has_path)
        && r->Page_0.chrome.flash is Some && r->Page_0.chrome.flash->0.says(
        web::FlashKind::Error,
        error,
    )
}

/// Shows the editor again, with an error above.
pub fn render_config_editor_with_flash(
    site: &web::Site,
    session: &web::UiSession,
    yaml: &str,
    has_path: bool,
    error: String,
) -> (r: web::Reply<ConfigEditorTemplate>)
    ensures
        tells_in_editor(r, *site, *session, yaml@, has_path, error@),
{
    let state = yaml_to_editor_json(yaml);
    web::Reply::Page(
        editor_page(
            site,
            session,
            yaml.to_owned(),
            state,
            !has_path,
            Some(web::Flash::error(error)),
        ),
    )
}

/// Decides whether the new text may be written: it has to be a configuration,
/// and there has to be a file.
pub fn admin_config_editor_apply_check(
    site: &web::Site,
    session: &web::UiSession,
    csrf_ok: bool,
    form: &ConfigEditorForm,
    invalid: Option<String>,
    has_path: bool,
) -> (r: Result<(), web::Reply<ConfigEditorTemplate>>)
    ensures
        !csrf_ok ==> r is Err && r->Err_0 is Forbidden,
        csrf_ok ==> match invalid {
            Some(e) => r is Err && tells_in_editor(
                r->Err_0,
                *site,
                *session,
                form.yaml@,
                has_path,
                "Validation failed: "@ + e@,
            ),
            None => if has_path {
                r is Ok
            } else {
                r is Err && tells_in_editor(
                    r->Err_0,
                    *site,
                    *session,
                    form.yaml@,
                    has_path,
                    "No config file path configured — cannot write"@,
                )
            },
        },
{
    if !csrf_ok {
        return Err(web::Reply::Forbidden);
    }
    if let Some(e) = invalid {
        return Err(
            render_config_editor_with_flash(
                site,
                session,
                form.yaml.as_str(),
                has_path,
                "Validation failed: ".to_owned().concat(e.as_str()),
            ),
        );
    }
    if !has_path {
        return Err(
            render_config_editor_with_flash(
                site,
                session,
                form.yaml.as_str(),
                has_path,
                "No config file path configured — cannot write".to_owned(),
            ),
        );
    }
    Ok(())
}

/// Answers after the new text was to be written to the file. The second part
/// of the result says whether the configuration is to be reloaded.
pub fn admin_config_editor_apply(
    site: &web::Site,
    session: &web::UiSession,
    form: &ConfigEditorForm,
    written: Result<(), String>,
) -> (r: (web::Reply<ConfigEditorTemplate>, bool))
    ensures
        r.1 == (written is Ok),
        match written {
            Ok(_) => r.0.redirects(
                "/ui/admin/settings/editor?flash=Configuration+applied+successfully&flash_kind=success"@,
            ),
            Err(e) => tells_in_editor(
                r.0,
                *site,
                *session,
                form.yaml@,
                true,
                "Failed to write file: "@ + e@,
            ),
        },
{
    match written {
        Ok(_) => (
            web::Reply::redirect(
                "/ui/admin/settings/editor?flash=Configuration+applied+successfully&flash_kind=success",
            ),
            true,
        ),
        Err(e) => (
            render_config_editor_with_flash(
                site,
                session,
                form.yaml.as_str(),
                true,
                "Failed to write file: ".to_owned().concat(e.as_str()),
            ),
            false,
        ),
    }
}

/// A file to download.
pub struct Download {
    pub content_type: String,
    pub content_disposition: String,
    pub body: String,
}

/// Offers the configuration for download.
pub fn admin_config_editor_export(file: ConfigFile) -> (r: Download)
    ensures
        r.content_type@ == "application/x-yaml"@,
        r.content_disposition@ == "attachment; filename=\"hearth.yaml\""@,
        r.body@ == edited_text(file).0,
{
    let (body, _) = read_config_yaml(file);
    Download {
        content_type: "application/x-yaml".to_owned(),
        content_disposition: "attachment; filename=\"hearth.yaml\"".to_owned(),
        body,
    }
}

// ---------------------------------------------------------------------------
// The visual editor
// ---------------------------------------------------------------------------

/// Gives the configuration of a state of the visual editor as a plain text, or
/// a plain error under the status "bad request".
pub fn admin_config_editor_visual_export(json: &str) -> (r: Result<String, String>)
    ensures
        result_text(r) == written_state(json@),
{
    editor_json_to_yaml(json)
}

/// Converts the state to preview; a state that cannot be converted is shown as
/// an error.
pub fn admin_config_editor_visual_preview_request(theme_css: &str, json: &str) -> (r: Result<
    String,
    web::Reply<DiffPreviewTemplate>,
>)
    ensures
        match written_state(json@) {
            Ok(yaml) => r is Ok && r->Ok_0@ == yaml,
            Err(e) => r is Err && r->Err_0 is Page && r->Err_0->Page_0.shows(
                theme_css@,
                Seq::empty(),
                Some(e),
            ),
        },
{
    match editor_json_to_yaml(json) {
        Ok(yaml) => Ok(yaml),
        Err(e) => Err(web::Reply::Page(preview(theme_css, String::new(), Some(e)))),
    }
}

/// Previews the configuration of a state.
pub fn admin_config_editor_visual_preview(
    theme_css: &str,
    new_yaml: &str,
    invalid: Option<String>,
    file: ConfigFile,
) -> (r: web::Reply<DiffPreviewTemplate>)
    ensures
        r is Page && r->Page_0.shows(
            theme_css@,
            previewed(file, new_yaml@, invalid),
            text::opt_text(invalid),
        ),
{
    admin_config_editor_preview(theme_css, new_yaml, invalid, file)
}

/// What is wrong with a field.
pub struct ValidationIssue {
    pub field: String,
    pub reason: String,
}

/// What the engine makes of a configuration.
pub enum ConfigCheck {
    /// It cannot be read.
    Unparsable(String),
    /// It was read, and these things are wrong with it.
    Read(Vec<ValidationIssue>),
}

/// Whether there is one issue, with a field and a reason.
pub open spec fn one_issue(issues: Seq<ValidationIssue>, field: Seq<char>, reason: Seq<char>) -> bool {
    issues.len() == 1 && issues[0].field@ == field && issues[0].reason@ == reason
}

fn issue(field: String, reason: &str) -> (r: Vec<ValidationIssue>)
    ensures
        one_issue(r@, field@, reason@),
{
    let mut issues: Vec<ValidationIssue> = Vec::new();
    issues.push(ValidationIssue { field, reason: reason.to_owned() });
    issues
}

/// The answer to a request to validate.
pub struct ValidationReply {
    pub valid: bool,
    pub errors: Vec<ValidationIssue>,
}

/// Converts the state to validate; a state that cannot be converted is not
/// valid.
pub fn admin_config_editor_visual_validate_request(json: &str) -> (r: Result<
    String,
    ValidationReply,
>)
    ensures
        match written_state(json@) {
            Ok(yaml) => r is Ok && r->Ok_0@ == yaml,
            Err(e) => r is Err && !r->Err_0.valid && one_issue(r->Err_0.errors@, "_yaml"@, e),
        },
{
    match editor_json_to_yaml(json) {
        Ok(yaml) => Ok(yaml),
        Err(e) => Err(
            ValidationReply { valid: false, errors: issue("_yaml".to_owned(), e.as_str()) },
        ),
    }
}

/// Tells what the engine makes of the configuration.
pub fn admin_config_editor_visual_validate(check: ConfigCheck) -> (r: ValidationReply)
    ensures
        match check {
            ConfigCheck::Unparsable(msg) => !r.valid && one_issue(
                r.errors@,
                error_field(msg@),
                msg@,
            ),
            ConfigCheck::Read(issues) => r.valid == (issues@.len() == 0) && r.errors == issues,
        },
{
    match check {
        ConfigCheck::Unparsable(msg) => ValidationReply {
            valid: false,
            errors: issue(field_from_parse_error(msg.as_str()), msg.as_str()),
        },
        ConfigCheck::Read(issues) => ValidationReply { valid: issues.len() == 0, errors: issues },
    }
}

/// The answer to a request to apply a state.
pub struct ApplyReply {
    pub ok: bool,
    pub message: Option<String>,
    pub error: Option<String>,
    pub errors: Option<Vec<ValidationIssue>>,
}

impl ApplyReply {
    /// Whether the reply refuses with an error and no details.
    pub open spec fn refuses(self, error: Seq<char>) -> bool {
        !self.ok && self.message is None && text::opt_text(self.error) == Some(error)
            && self.errors is None
    }

    /// A refusal without details.
    fn refusal(error: String) -> (r: ApplyReply)
        ensures
            r.refuses(error@),
    {
        ApplyReply { ok: false, message: None, error: Some(error), errors: None }
    }
}

/// Converts the state to apply.
pub fn admin_config_editor_visual_apply_request(json: &str) -> (r: Result<String, ApplyReply>)
    ensures
        match written_state(json@) {
            Ok(yaml) => r is Ok && r->Ok_0@ == yaml,
            Err(e) => r is Err && r->Err_0.refuses(e),
        },
{
    match editor_json_to_yaml(json) {
        Ok(yaml) => Ok(yaml),
        Err(e) => Err(ApplyReply::refusal(e)),
    }
}

/// Decides whether the configuration may be written: the engine finds nothing
/// wrong with it, and there is a file.
pub fn admin_config_editor_visual_apply_check(check: ConfigCheck, has_path: bool) -> (r: Result<
    (),
    ApplyReply,
>)
    ensures
        match check {
            ConfigCheck::Unparsable(msg) => {
                &&& r is Err
                &&& !r->Err_0.ok
                &&& r->Err_0.message is None
                &&& text::opt_text(r->Err_0.error) == Some("Parse error: "@ + msg@)
                &&& r->Err_0.errors is Some
                &&& one_issue(r->Err_0.errors->0@, error_field(msg@), msg@)
            },
            ConfigCheck::Read(issues) => if issues@.len() > 0 {
                &&& r is Err
                &&& !r->Err_0.ok
                &&& r->Err_0.message is None
                &&& text::opt_text(r->Err_0.error) == Some(
                    text::decimal(issues@.len()) + " validation error(s)"@,
                )
                &&& r->Err_0.errors == Some(issues)
            } else if has_path {
                r is Ok
            } else {
                r is Err && r->Err_0.refuses("No config file path configured — cannot write"@)
            },
        },
{
    match check {
        ConfigCheck::Unparsable(msg) => Err(
            ApplyReply {
                ok: false,
                message: None,
                error: Some("Parse error: ".to_owned().concat(msg.as_str())),
                errors: Some(issue(field_from_parse_error(msg.as_str()), msg.as_str())),
            },
        ),
        ConfigCheck::Read(issues) => if issues.len() > 0 {
            let count: usize = issues.len();
            Err(
                ApplyReply {
                    ok: false,
                    message: None,
                    error: Some(text::decimal_u64(count as u64).concat(" validation error(s)")),
                    errors: Some(issues),
                },
            )
        } else if has_path {
            Ok(())
        } else {
            Err(
                ApplyReply::refusal("No config file path configured — cannot write".to_owned()),
            )
        },
    }
}

/// Answers after the configuration was to be written. It is to be reloaded
/// where the answer is a success.
pub fn admin_config_editor_visual_apply(written: Result<(), String>) -> (r: ApplyReply)
    ensures
        match written {
            Ok(_) => r.ok && text::opt_text(r.message) == Some(
                "Configuration applied successfully"@,
            ) && r.error is None && r.errors is None,
            Err(e) => r.refuses("Failed to write file: "@ + e@),
        },
{
    match written {
        Ok(_) => ApplyReply {
            ok: true,
            message: Some("Configuration applied successfully".to_owned()),
            error: None,
            errors: None,
        },
        Err(e) => ApplyReply::refusal("Failed to write file: ".to_owned().concat(e.as_str())),
    }
}

/// Where the page edits a text: each part of what that says.
pub proof fn law_config_editor_template_edits(
    page: ConfigEditorTemplate,
    site: web::Site,
    session: web::UiSession,
    yaml: Seq<char>,
    state: Result<Seq<char>, Seq<char>>,
    read_only: bool,
)
    requires
        page.edits(site, session, yaml, state, read_only),
    ensures
        page.yaml_content@ == yaml,
        page.config_json@ == json::or_empty_object(state.ok()),
        page.read_only == read_only,
        page.chrome.is_admin_page(site, session, "settings"@),
{
}

/// Where the preview shows a diff, or an error and no diff: each part of what
/// that says.
pub proof fn law_diff_preview_template_shows(
    page: DiffPreviewTemplate,
    theme_css: Seq<char>,
    diff: Seq<char>,
    error: Option<Seq<char>>,
)
    requires
        page.shows(theme_css, diff, error),
    ensures
        page.diff@ == diff,
        text::texts(page.diff_lines@) == text::lines_of(diff),
        text::opt_text(page.error) == error,
        page.product_name@ == Seq::<char>::empty(),
        page.logo_url@ == Seq::<char>::empty(),
        page.theme_css@ == theme_css,
        page.realm_theme_css is None,
{
}

/// The editor shows the file as it is; a file that cannot be read, or that is not
/// there, is told in a comment and cannot be changed.
pub proof fn law_edited_text(file: ConfigFile)
    ensures
        file matches ConfigFile::Content(s) ==> edited_text(file) == (s@, false),
        file matches ConfigFile::Unreadable(e) ==> edited_text(file) == (
            "# Error reading config file: "@ + e@,
            true,
        ),
        file is Absent ==> edited_text(file) == (
            "# No config file path available.\n# Running in embedded/dev mode.\n"@,
            true,
        ),
        !(file is Content) ==> edited_text(file).0[0] == '#',
{
    reveal_strlit("# Error reading config file: ");
    reveal_strlit("# No config file path available.\n# Running in embedded/dev mode.\n");
}

/// What was converted is handed on as it is; a failure is told with the step at
/// which it came.
pub proof fn law_told(
    converted: Result<Result<Seq<char>, Seq<char>>, Seq<char>>,
    reading: Seq<char>,
    writing: Seq<char>,
)
    ensures
        converted matches Ok(Ok(s)) ==> told(converted, reading, writing) == Ok::<
            Seq<char>,
            Seq<char>,
        >(s),
        converted matches Ok(Err(e)) ==> told(converted, reading, writing) == Err::<
            Seq<char>,
            Seq<char>,
        >(writing + e),
        converted matches Err(e) ==> told(converted, reading, writing) == Err::<
            Seq<char>,
            Seq<char>,
        >(reading + e),
{
}

/// The two ways between the texts of the editor are told apart by their failures.
pub proof fn law_editor_states(yaml: Seq<char>, json: Seq<char>)
    ensures
        json::json_of_yaml(yaml) matches Ok(Ok(s)) ==> editor_state(yaml) == Ok::<
            Seq<char>,
            Seq<char>,
        >(s),
        json::json_of_yaml(yaml) matches Err(e) ==> editor_state(yaml) == Err::<
            Seq<char>,
            Seq<char>,
        >("YAML parse error: "@ + e),
        json::json_of_yaml(yaml) matches Ok(Err(e)) ==> editor_state(yaml) == Err::<
            Seq<char>,
            Seq<char>,
        >("JSON serialization error: "@ + e),
        json::yaml_of_json(json) matches Ok(Ok(s)) ==> written_state(json) == Ok::<
            Seq<char>,
            Seq<char>,
        >(s),
        json::yaml_of_json(json) matches Err(e) ==> written_state(json) == Err::<
            Seq<char>,
            Seq<char>,
        >("JSON→YAML conversion: "@ + e),
        json::yaml_of_json(json) matches Ok(Err(e)) ==> written_state(json) == Err::<
            Seq<char>,
            Seq<char>,
        >("YAML serialization error: "@ + e),
{
}

/// What a result holds is what it is taken for.
pub proof fn law_result_text(r: Result<String, String>)
    ensures
        r matches Ok(s) ==> result_text(r) == Ok::<Seq<char>, Seq<char>>(s@),
        r matches Err(e) ==> result_text(r) == Err::<Seq<char>, Seq<char>>(e@),
{
}

/// A message that names no field is about the whole text.
pub proof fn law_no_field(msg: Seq<char>)
    ensures
        !text::occurs(msg, ": "@) ==> error_field(msg) == "_yaml"@,
        !msg.contains('.') ==> error_field(msg) == "_yaml"@,
        error_field(msg) != "_yaml"@ ==> is_field_path(error_field(msg)) && text::has_prefix(
            msg,
            error_field(msg) + ": "@,
        ),
{
    reveal_strlit(": ");
    if exists|i: int| names_field(msg, i) {
        let i = choose|i: int| names_field(msg, i);
        assert(text::occurs_at(msg, ": "@, i));
        assert(msg.subrange(i, i + 2) == ": "@);
        let path = msg.take(i);
        assert(path.contains('.'));
        let k = choose|k: int| 0 <= k < path.len() && path[k] == '.';
        assert(msg[k] == '.');
        let lead = path + ": "@;
        assert(msg.subrange(0, lead.len() as int) =~= lead) by {
            assert forall|j: int| 0 <= j < lead.len() implies msg[j] == lead[j] by {
                if j >= i {
                    assert(msg.subrange(i, i + 2)[j - i] == msg[j]);
                }
            }
        }
    }
}

/// The preview of a text that would be accepted, applied to what is in the file,
/// gives that text; of one that would be refused there is none.
pub proof fn law_preview_is_a_patch(file: ConfigFile, new_yaml: Seq<char>, invalid: Option<String>)
    ensures
        invalid is None ==> diff::patched(
            text::lines_of(edited_text(file).0),
            previewed(file, new_yaml, invalid),
        ) == Some(text::lines_of(new_yaml)),
        invalid is Some ==> previewed(file, new_yaml, invalid).len() == 0,
{
    diff::law_printed_diff_is_a_patch(edited_text(file).0, new_yaml);
}

/// A refused text stays in the editor, with the error above it.
pub proof fn law_tells_in_editor(
    r: web::Reply<ConfigEditorTemplate>,
    site: web::Site,
    session: web::UiSession,
    yaml: Seq<char>,
    has_path: bool,
    error: Seq<char>,
)
    requires
        tells_in_editor(r, site, session, yaml, has_path, error),
    ensures
        r matches web::Reply::Page(p) && p.yaml_content@ == yaml && p.read_only == !has_path && (
        p.chrome.flash matches Some(f) && f.kind is Error && f.message@ == error),
{
}

/// One issue is one issue: its field and its reason.
pub proof fn law_one_issue(issues: Seq<ValidationIssue>, field: Seq<char>, reason: Seq<char>)
    ensures
        one_issue(issues, field, reason) <==> issues.len() == 1 && issues[0].field@ == field
            && issues[0].reason@ == reason,
{
}

/// A refusal says that nothing was applied, and why.
pub proof fn law_apply_refuses(reply: ApplyReply, error: Seq<char>)
    requires
        reply.refuses(error),
    ensures
        !reply.ok,
        reply.message is None,
        reply.error matches Some(e) && e@ == error,
        reply.errors is None,
{
}

/// The path of a field is made of letters, digits, underscores and at least one
/// dot.
pub proof fn law_field_path(s: Seq<char>, c: char)
    ensures
        is_path_char(c) <==> ('a' <= c && c <= 'z') || ('A' <= c && c <= 'Z') || ('0' <= c && c
            <= '9') || c == '_' || c == '.',
        is_field_path(s) <==> s.contains('.') && forall|k: int|
            0 <= k < s.len() ==> is_path_char(#[trigger] s[k]),
{
}

} // verus!
