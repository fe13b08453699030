//! Migration history and realms that lost their configuration.

use crate::text;
use crate::web;
use vstd::prelude::*;
use vstd::string::*;

verus! {

// ---------------------------------------------------------------------------
// Rows
// ---------------------------------------------------------------------------

/// A migration as the engine recorded it.
pub struct MigrationHistoryRecord {
    pub source_slug: String,
    pub destination_slug: String,
    /// Whether the source was emptied.
    pub move_semantics: bool,
    pub users_migrated: u64,
    pub users_skipped: u64,
    pub completed_at: String,
    /// The style classes of its status.
    pub badge_class: String,
    /// How its status is called.
    pub status_label: String,
}

/// A migration on the page.
pub struct MigrationRow {
    /// Source realm.
    pub source_slug: String,
    /// Destination realm.
    pub destination_slug: String,
    /// "move" or "copy".
    pub kind: String,
    /// How many users were migrated.
    pub users_migrated: u64,
    /// How many users were skipped.
    pub users_skipped: u64,
    /// When the migration was completed.
    pub completed_at: String,
    /// The style classes of the status badge.
    pub badge_class: String,
    /// How the status is called.
    pub status_label: String,
    /// The query by which the audit log shows the migration.
    pub audit_filter: String,
}

/// A migration row without its representation.
#[verifier::ext_equal]
pub struct MigrationLine {
    pub source_slug: Seq<char>,
    pub destination_slug: Seq<char>,
    pub kind: Seq<char>,
    pub users_migrated: u64,
    pub users_skipped: u64,
    pub completed_at: Seq<char>,
    pub badge_class: Seq<char>,
    pub status_label: Seq<char>,
    pub audit_filter: Seq<char>,
}

impl View for MigrationRow {
    type V = MigrationLine;

    open spec fn view(&self) -> MigrationLine {
        MigrationLine {
            source_slug: self.source_slug@,
            destination_slug: self.destination_slug@,
            kind: self.kind@,
            users_migrated: self.users_migrated,
            users_skipped: self.users_skipped,
            completed_at: self.completed_at@,
            badge_class: self.badge_class@,
            status_label: self.status_label@,
            audit_filter: self.audit_filter@,
        }
    }
}

/// The row of a migration.
pub open spec fn migration_line(r: MigrationHistoryRecord) -> MigrationLine {
    MigrationLine {
        source_slug: r.source_slug@,
        destination_slug: r.destination_slug@,
        kind: if r.move_semantics {
            "move"@
        } else {
            "copy"@
        },
        users_migrated: r.users_migrated,
        users_skipped: r.users_skipped,
        completed_at: r.completed_at@,
        badge_class: r.badge_class@,
        status_label: r.status_label@,
        audit_filter: "action=MigrationCompleted&q="@ + r.source_slug@,
    }
}

impl MigrationRow {
    /// The row of a migration.
    pub fn from_record(r: &MigrationHistoryRecord) -> (row: MigrationRow)
        ensures
            row@ == migration_line(*r),
    {
        let kind = if r.move_semantics {
            "move".to_owned()
        } else {
            "copy".to_owned()
        };
        MigrationRow {
            source_slug: r.source_slug.clone(),
            destination_slug: r.destination_slug.clone(),
            kind,
            users_migrated: r.users_migrated,
            users_skipped: r.users_skipped,
            completed_at: r.completed_at.clone(),
            badge_class: r.badge_class.clone(),
            status_label: r.status_label.clone(),
            audit_filter: "action=MigrationCompleted&q=".to_owned().concat(r.source_slug.as_str()),
        }
    }
}

/// A realm without configuration, as the engine recorded it.
pub struct OrphanRecord {
    pub realm_slug: String,
    pub detected_at: String,
    pub user_count: u64,
    pub org_count: u64,
}

/// A realm without configuration on the page.
pub struct OrphanRow {
    /// The realm.
    pub realm_slug: String,
    /// When it was first noticed.
    pub detected_at: String,
    /// How many users it had then.
    pub user_count: u64,
    /// How many organizations it had then.
    pub org_count: u64,
    /// YAML that the operator can paste into `hearth.yaml`.
    pub yaml_snippet: String,
}

/// An orphan row without its representation.
#[verifier::ext_equal]
pub struct OrphanLine {
    pub realm_slug: Seq<char>,
    pub detected_at: Seq<char>,
    pub user_count: u64,
    pub org_count: u64,
    pub yaml_snippet: Seq<char>,
}

impl View for OrphanRow {
    type V = OrphanLine;

    open spec fn view(&self) -> OrphanLine {
        OrphanLine {
            realm_slug: self.realm_slug@,
            detected_at: self.detected_at@,
            user_count: self.user_count,
            org_count: self.org_count,
            yaml_snippet: self.yaml_snippet@,
        }
    }
}

/// The row of a realm without configuration.
pub open spec fn orphan_line(r: OrphanRecord) -> OrphanLine {
    OrphanLine {
        realm_slug: r.realm_slug@,
        detected_at: r.detected_at@,
        user_count: r.user_count,
        org_count: r.org_count,
        yaml_snippet:
            "# Add this block to an existing destination realm entry in hearth.yaml:\n  migrate_from: "@
            + r.realm_slug@ + "\n"@,
    }
}

impl OrphanRow {
    /// The row of a realm without configuration.
    pub fn from_record(r: &OrphanRecord) -> (row: OrphanRow)
        ensures
            row@ == orphan_line(*r),
    {
        let yaml_snippet =
            "# Add this block to an existing destination realm entry in hearth.yaml:\n  migrate_from: ".to_owned().concat(
        r.realm_slug.as_str()).concat("\n");
        OrphanRow {
            realm_slug: r.realm_slug.clone(),
            detected_at: r.detected_at.clone(),
            user_count: r.user_count,
            org_count: r.org_count,
            yaml_snippet,
        }
    }
}

// ---------------------------------------------------------------------------
// The page
// ---------------------------------------------------------------------------

/// The rows of migrations.
pub open spec fn migration_lines(items: Seq<MigrationHistoryRecord>) -> Seq<MigrationLine> {
    Seq::new(items.len(), |i: int| migration_line(items[i]))
}

/// The rows of realms without configuration.
pub open spec fn orphan_lines(items: Seq<OrphanRecord>) -> Seq<OrphanLine> {
    Seq::new(items.len(), |i: int| orphan_line(items[i]))
}

/// The migrations page.
pub struct MigrationsListTemplate {
    pub migrations: Vec<MigrationRow>,
    pub orphans: Vec<OrphanRow>,
    pub chrome: web::Chrome,
}

/// Shows the migrations and the realms without configuration.
pub fn admin_migrations_list(
    site: &web::Site,
    session: &web::UiSession,
    migration_records: &Vec<MigrationHistoryRecord>,
    orphaned_realms: &Vec<OrphanRecord>,
) -> (r: web::Reply<MigrationsListTemplate>)
    ensures
        r is Page && {
            let p = r->Page_0;
            &&& text::views(p.migrations@) == migration_lines(migration_records@)
            &&& text::views(p.orphans@) == orphan_lines(orphaned_realms@)
            &&& p.chrome.is_admin_page(*site, *session, "migrations"@)
            &&& p.chrome.flash is None
        },
{
    let mut migrations: Vec<MigrationRow> = Vec::new();
    let mut i: usize = 0;
    while i < migration_records.len()
        invariant
            i <= migration_records.len(),
            migrations.len() == i,
            forall|j: int|
                0 <= j < i ==> (#[trigger] migrations@[j])@ == migration_line(
                    migration_records@[j],
                ),
        decreases migration_records.len() - i,
    {
        migrations.push(MigrationRow::from_record(&migration_records[i]));
        i += 1;
    }
    let mut orphans: Vec<OrphanRow> = Vec::new();
    let mut k: usize = 0;
    while k < orphaned_realms.len()
        invariant
            k <= orphaned_realms.len(),
            orphans.len() == k,
            forall|j: int|
                0 <= j < k ==> (#[trigger] orphans@[j])@ == orphan_line(orphaned_realms@[j]),
        decreases orphaned_realms.len() - k,
    {
        orphans.push(OrphanRow::from_record(&orphaned_realms[k]));
        k += 1;
    }
    proof {
        assert(text::views(migrations@) =~= migration_lines(migration_records@));
        assert(text::views(orphans@) =~= orphan_lines(orphaned_realms@));
    }
    web::Reply::Page(
        MigrationsListTemplate {
            migrations,
            orphans,
            chrome: web::Chrome::admin(site, session, "migrations"),
        },
    )
}

// ---------------------------------------------------------------------------
// Resolving an orphan
// ---------------------------------------------------------------------------

/// The form that resolves a realm without configuration.
pub struct OrphanResolveForm {
    pub csrf: String,
    /// The realm.
    pub slug: String,
    /// Where it goes; empty or absent to discard it.
    pub destination: Option<String>,
}

/// The YAML that resolves a realm without configuration.
pub struct OrphanYamlTemplate {
    pub slug: String,
    pub destination: Option<String>,
    pub yaml_migrate: String,
    pub yaml_discard: String,
}

/// The destination that a form names.
pub open spec fn named_destination(destination: Option<String>) -> Option<Seq<char>> {
    match destination {
        Some(d) => if d@.len() == 0 {
            None
        } else {
            Some(d@)
        },
        None => None,
    }
}

/// The YAML that migrates a realm; nothing without a destination.
pub open spec fn migrate_yaml(slug: Seq<char>, destination: Option<Seq<char>>) -> Seq<char> {
    match destination {
        Some(d) => "realms:\n  "@ + d + ":\n    migrate_from: "@ + slug + "\n"@,
        None => Seq::empty(),
    }
}

/// Writes the YAML by which the operator migrates or discards a realm; nothing
/// is changed.
pub fn admin_migrations_orphan_resolve(csrf_ok: bool, form: OrphanResolveForm) -> (r: web::Reply<
    OrphanYamlTemplate,
>)
    ensures
        !csrf_ok ==> r is Forbidden,
        csrf_ok ==> r is Page && {
            let p = r->Page_0;
            let destination = named_destination(form.destination);
            &&& p.slug@ == form.slug@
            &&& text::opt_text(p.destination) == destination
            &&& p.yaml_migrate@ == migrate_yaml(form.slug@, destination)
            &&& p.yaml_discard@ == "realms:\n  "@ + form.slug@ + ":\n    archive_drop: true\n"@
        },
{
    if !csrf_ok {
        return web::Reply::Forbidden;
    }
    let destination = match form.destination {
        Some(d) => if d.as_str().is_empty() {
            None
        } else {
            Some(d)
        },
        None => None,
    };
    let yaml_migrate = match &destination {
        Some(d) => "realms:\n  ".to_owned().concat(d.as_str()).concat(
            ":\n    migrate_from: ",
        ).concat(form.slug.as_str()).concat("\n"),
        None => String::new(),
    };
    let yaml_discard = "realms:\n  ".to_owned().concat(form.slug.as_str()).concat(
        ":\n    archive_drop: true\n",
    );
    web::Reply::Page(
        OrphanYamlTemplate { slug: form.slug, destination, yaml_migrate, yaml_discard },
    )
}

/// What is seen of a row is what it holds, each part under its own name.
pub proof fn law_rows_seen(a: MigrationRow, b: OrphanRow)
    ensures
        a@.source_slug == a.source_slug@,
        a@.destination_slug == a.destination_slug@,
        a@.kind == a.kind@,
        a@.users_migrated == a.users_migrated,
        a@.users_skipped == a.users_skipped,
        a@.completed_at == a.completed_at@,
        a@.badge_class == a.badge_class@,
        a@.status_label == a.status_label@,
        a@.audit_filter == a.audit_filter@,
        b@.realm_slug == b.realm_slug@,
        b@.detected_at == b.detected_at@,
        b@.user_count == b.user_count,
        b@.org_count == b.org_count,
        b@.yaml_snippet == b.yaml_snippet@,
{
}

/// Part by part: the row of a migration.
pub proof fn law_migration_line(r: MigrationHistoryRecord)
    ensures
        migration_line(r).source_slug == r.source_slug@,
        migration_line(r).destination_slug == r.destination_slug@,
        migration_line(r).kind == (if r.move_semantics {
                "move"@
            } else {
                "copy"@
            }),
        migration_line(r).users_migrated == r.users_migrated,
        migration_line(r).users_skipped == r.users_skipped,
        migration_line(r).completed_at == r.completed_at@,
        migration_line(r).badge_class == r.badge_class@,
        migration_line(r).status_label == r.status_label@,
        migration_line(r).audit_filter == "action=MigrationCompleted&q="@ + r.source_slug@,
{
}

/// Part by part: the row of a realm without configuration.
pub proof fn law_orphan_line(r: OrphanRecord)
    ensures
        orphan_line(r).realm_slug == r.realm_slug@,
        orphan_line(r).detected_at == r.detected_at@,
        orphan_line(r).user_count == r.user_count,
        orphan_line(r).org_count == r.org_count,
        orphan_line(r).yaml_snippet
            == "# Add this block to an existing destination realm entry in hearth.yaml:\n  migrate_from: "@
            + r.realm_slug@ + "\n"@,
{
}

/// One for each, in order: the rows of migrations.
pub proof fn law_migration_lines(items: Seq<MigrationHistoryRecord>, i: int)
    ensures
        migration_lines(items).len() == items.len(),
        0 <= i < items.len() ==> migration_lines(items)[i] == migration_line(items[i]),
{
}

/// One for each, in order: the rows of realms without configuration.
pub proof fn law_orphan_lines(items: Seq<OrphanRecord>, i: int)
    ensures
        orphan_lines(items).len() == items.len(),
        0 <= i < items.len() ==> orphan_lines(items)[i] == orphan_line(items[i]),
{
}

/// A destination counts where it is named, and the text to add names both realms:
/// the destination as the key, the other as the realm to take over.
pub proof fn law_migrate_yaml(slug: Seq<char>, destination: Option<String>)
    ensures
        destination is None ==> named_destination(destination) is None,
        destination matches Some(d) ==> (d@.len() == 0 ==> named_destination(destination) is None),
        destination matches Some(d) ==> (d@.len() > 0 ==> named_destination(destination) == Some(
            d@,
        )),
        destination matches Some(d) ==> (d@.len() > 0 ==> migrate_yaml(
            slug,
            named_destination(destination),
        ) == "realms:\n  "@ + d@ + ":\n    migrate_from: "@ + slug + "\n"@),
        named_destination(destination) is None ==> migrate_yaml(
            slug,
            named_destination(destination),
        ).len() == 0,
{
}

} // verus!
