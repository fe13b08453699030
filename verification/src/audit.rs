//! The audit log: the events that the console writes, and the page that shows
//! the log.

use crate::calendar;
use crate::codec;
use crate::order;
use crate::text;
use crate::web;
use vstd::prelude::*;
use vstd::string::*;

verus! {

// ---------------------------------------------------------------------------
// Events of the console
// ---------------------------------------------------------------------------

/// The actions of an operation on a kind of thing: creation, update, deletion.
pub open spec fn crud_action(
    op: Seq<char>,
    create: web::AuditAction,
    update: web::AuditAction,
    delete: web::AuditAction,
) -> Option<web::AuditAction> {
    if op == "create"@ {
        Some(create)
    } else if op == "update"@ {
        Some(update)
    } else if op == "delete"@ {
        Some(delete)
    } else {
        None
    }
}

fn pick_action(
    op: &str,
    create: web::AuditAction,
    update: web::AuditAction,
    delete: web::AuditAction,
) -> (r: Option<web::AuditAction>)
    ensures
        r == crud_action(op@, create, update, delete),
{
    if text::same(op, "create") {
        Some(create)
    } else if text::same(op, "update") {
        Some(update)
    } else if text::same(op, "delete") {
        Some(delete)
    } else {
        None
    }
}

/// Whether `event` records `action` on a thing, or there is no event where
/// there is no action.
pub open spec fn records(
    event: Option<web::AuditEvent>,
    session: web::UiSession,
    realm_id: u128,
    action: Option<web::AuditAction>,
    resource_type: Seq<char>,
    resource: u128,
) -> bool {
    match action {
        Some(a) => event is Some && event->0@ == web::ui_event(
            session,
            realm_id,
            a,
            resource_type,
            codec::hyphenated(resource),
            web::via_ui(),
        ),
        None => event is None,
    }
}

/// Records an operation on a user.
pub fn audit_user_event(session: &web::UiSession, realm_id: u128, user_id: u128, op: &str) -> (r:
    Option<web::AuditEvent>)
    ensures
        records(
            r,
            *session,
            realm_id,
            crud_action(
                op@,
                web::AuditAction::UserCreated,
                web::AuditAction::UserUpdated,
                web::AuditAction::UserDeleted,
            ),
            "user"@,
            user_id,
        ),
{
    match pick_action(
        op,
        web::AuditAction::UserCreated,
        web::AuditAction::UserUpdated,
        web::AuditAction::UserDeleted,
    ) {
        Some(a) => Some(web::record_ui(session, realm_id, a, "user", user_id)),
        None => None,
    }
}

/// Records an operation on a realm.
pub fn audit_realm_event(session: &web::UiSession, realm_id: u128, op: &str) -> (r: Option<
    web::AuditEvent,
>)
    ensures
        records(
            r,
            *session,
            realm_id,
            crud_action(
                op@,
                web::AuditAction::RealmCreated,
                web::AuditAction::RealmUpdated,
                web::AuditAction::RealmDeleted,
            ),
            "realm"@,
            realm_id,
        ),
{
    match pick_action(
        op,
        web::AuditAction::RealmCreated,
        web::AuditAction::RealmUpdated,
        web::AuditAction::RealmDeleted,
    ) {
        Some(a) => Some(web::record_ui(session, realm_id, a, "realm", realm_id)),
        None => None,
    }
}

/// Records an operation on an application.
pub fn audit_app_event(session: &web::UiSession, realm_id: u128, client_id: u128, op: &str) -> (r:
    Option<web::AuditEvent>)
    ensures
        records(
            r,
            *session,
            realm_id,
            crud_action(
                op@,
                web::AuditAction::ClientRegistered,
                web::AuditAction::ClientUpdated,
                web::AuditAction::ClientDeleted,
            ),
            "client"@,
            client_id,
        ),
{
    match pick_action(
        op,
        web::AuditAction::ClientRegistered,
        web::AuditAction::ClientUpdated,
        web::AuditAction::ClientDeleted,
    ) {
        Some(a) => Some(web::record_ui(session, realm_id, a, "client", client_id)),
        None => None,
    }
}

/// Records an operation on an organization.
pub fn audit_org_event(session: &web::UiSession, realm_id: u128, org_id: u128, op: &str) -> (r:
    Option<web::AuditEvent>)
    ensures
        records(
            r,
            *session,
            realm_id,
            crud_action(
                op@,
                web::AuditAction::OrgCreated,
                web::AuditAction::OrgUpdated,
                web::AuditAction::OrgDeleted,
            ),
            "organization"@,
            org_id,
        ),
{
    match pick_action(
        op,
        web::AuditAction::OrgCreated,
        web::AuditAction::OrgUpdated,
        web::AuditAction::OrgDeleted,
    ) {
        Some(a) => Some(web::record_ui(session, realm_id, a, "organization", org_id)),
        None => None,
    }
}

/// Records an operation on a session.
pub fn audit_session_event(
    session: &web::UiSession,
    realm_id: u128,
    session_id: u128,
    op: &str,
) -> (r: Option<web::AuditEvent>)
    ensures
        records(
            r,
            *session,
            realm_id,
            if op@ == "revoke"@ {
                Some(web::AuditAction::SessionRevoked)
            } else {
                None
            },
            "session"@,
            session_id,
        ),
{
    if text::same(op, "revoke") {
        Some(
            web::record_ui(
                session,
                realm_id,
                web::AuditAction::SessionRevoked,
                "session",
                session_id,
            ),
        )
    } else {
        None
    }
}

/// The action of an operation on a group.
pub open spec fn group_action(op: Seq<char>) -> Option<web::AuditAction> {
    if op == "member_add"@ {
        Some(web::AuditAction::GroupMemberAdded)
    } else if op == "member_remove"@ {
        Some(web::AuditAction::GroupMemberRemoved)
    } else {
        crud_action(
            op,
            web::AuditAction::GroupCreated,
            web::AuditAction::GroupUpdated,
            web::AuditAction::GroupDeleted,
        )
    }
}

/// The metadata of an event about a member of a group.
pub open spec fn member_metadata(member_type: Seq<char>, member_id: Seq<char>) -> Seq<
    (Seq<char>, web::MetaView),
> {
    seq![
        ("via"@, web::MetaView::Text("ui"@)),
        ("member_type"@, web::MetaView::Text(member_type)),
        ("member_id"@, web::MetaView::Text(member_id)),
    ]
}

/// Records an operation on a group; `member` names the member that it is
/// about, by kind and identifier.
pub fn audit_group_event(
    session: &web::UiSession,
    realm_id: u128,
    group_id: u128,
    op: &str,
    member: &Option<(String, String)>,
) -> (r: Option<web::AuditEvent>)
    ensures
        match group_action(op@) {
            Some(a) => r is Some && r->0@ == web::ui_event(
                *session,
                realm_id,
                a,
                "group"@,
                codec::hyphenated(group_id),
                match member {
                    Some(m) => member_metadata(m.0@, m.1@),
                    None => web::via_ui(),
                },
            ),
            None => r is None,
        },
{
    let action = if text::same(op, "member_add") {
        Some(web::AuditAction::GroupMemberAdded)
    } else if text::same(op, "member_remove") {
        Some(web::AuditAction::GroupMemberRemoved)
    } else {
        pick_action(
            op,
            web::AuditAction::GroupCreated,
            web::AuditAction::GroupUpdated,
            web::AuditAction::GroupDeleted,
        )
    };
    match action {
        None => None,
        Some(a) => match member {
            None => Some(web::record_ui(session, realm_id, a, "group", group_id)),
            Some(m) => {
                let mut metadata: Vec<(String, web::Meta)> = Vec::new();
                metadata.push(web::meta_text("via", "ui"));
                metadata.push(web::meta_text("member_type", m.0.as_str()));
                metadata.push(web::meta_text("member_id", m.1.as_str()));
                let event = web::record(
                    session,
                    realm_id,
                    a,
                    "group",
                    codec::uuid_text(group_id).as_str(),
                    metadata,
                );
                proof {
                    assert(event@.metadata =~= member_metadata(m.0@, m.1@));
                }
                Some(event)
            },
        },
    }
}

/// The event of a role that a group got or lost.
pub open spec fn group_role_event(
    session: web::UiSession,
    realm_id: u128,
    group_id: u128,
    assigned: bool,
    role: Seq<char>,
) -> web::AuditEventView {
    web::ui_event(
        session,
        realm_id,
        if assigned {
            web::AuditAction::RoleAssigned
        } else {
            web::AuditAction::RoleRevoked
        },
        "group"@,
        codec::hyphenated(group_id),
        seq![
            ("via"@, web::MetaView::Text("ui"@)),
            ("subject_type"@, web::MetaView::Text("group"@)),
            ("role"@, web::MetaView::Text(role)),
        ],
    )
}

/// Records that a group got or lost a role.
pub fn audit_group_role_event(
    session: &web::UiSession,
    realm_id: u128,
    group_id: u128,
    assigned: bool,
    role: &str,
) -> (r: web::AuditEvent)
    ensures
        r@ == group_role_event(*session, realm_id, group_id, assigned, role@),
{
    let action = if assigned {
        web::AuditAction::RoleAssigned
    } else {
        web::AuditAction::RoleRevoked
    };
    let mut metadata: Vec<(String, web::Meta)> = Vec::new();
    metadata.push(web::meta_text("via", "ui"));
    metadata.push(web::meta_text("subject_type", "group"));
    metadata.push(web::meta_text("role", role));
    let r = web::record(
        session,
        realm_id,
        action,
        "group",
        codec::uuid_text(group_id).as_str(),
        metadata,
    );
    proof {
        assert(r@.metadata =~= group_role_event(
            *session,
            realm_id,
            group_id,
            assigned,
            role@,
        ).metadata);
    }
    r
}

/// Records that the signed-in user changed the password.
pub fn audit_password_changed(session: &web::UiSession) -> (r: web::AuditEvent)
    ensures
        r@ == web::ui_event(
            *session,
            session.realm_id,
            web::AuditAction::CredentialChanged,
            "user"@,
            codec::hyphenated(session.user_id),
            web::via_ui(),
        ),
{
    web::record_ui(
        session,
        session.realm_id,
        web::AuditAction::CredentialChanged,
        "user",
        session.user_id,
    )
}

/// The event of a change to the signed-in user's second factors.
pub open spec fn mfa_event(session: web::UiSession, op: Seq<char>) -> web::AuditEventView {
    web::ui_event(
        session,
        session.realm_id,
        web::AuditAction::CredentialChanged,
        "user"@,
        codec::hyphenated(session.user_id),
        seq![("via"@, web::MetaView::Text("ui"@)), ("op"@, web::MetaView::Text(op))],
    )
}

/// Records a change to the signed-in user's second factors.
pub fn audit_mfa_event(session: &web::UiSession, op: &str) -> (r: web::AuditEvent)
    ensures
        r@ == mfa_event(*session, op@),
{
    let mut metadata: Vec<(String, web::Meta)> = Vec::new();
    metadata.push(web::meta_text("via", "ui"));
    metadata.push(web::meta_text("op", op));
    let r = web::record(
        session,
        session.realm_id,
        web::AuditAction::CredentialChanged,
        "user",
        codec::uuid_text(session.user_id).as_str(),
        metadata,
    );
    proof {
        assert(r@.metadata =~= mfa_event(*session, op@).metadata);
    }
    r
}

/// The event of a session that its owner revoked, alone or with others.
pub open spec fn self_revoke_event(
    session: web::UiSession,
    target: u128,
    batch: bool,
) -> web::AuditEventView {
    web::ui_event(
        session,
        session.realm_id,
        web::AuditAction::SessionRevoked,
        "session"@,
        codec::hyphenated(target),
        if batch {
            seq![("via"@, web::MetaView::Text("self"@)), ("batch"@, web::MetaView::Flag(true))]
        } else {
            seq![("via"@, web::MetaView::Text("self"@))]
        },
    )
}

/// Records that the signed-in user revoked one of the own sessions.
pub fn audit_self_session_revoke(session: &web::UiSession, target: u128, batch: bool) -> (r:
    web::AuditEvent)
    ensures
        r@ == self_revoke_event(*session, target, batch),
{
    let mut metadata: Vec<(String, web::Meta)> = Vec::new();
    metadata.push(web::meta_text("via", "self"));
    if batch {
        metadata.push(("batch".to_owned(), web::Meta::Flag(true)));
    }
    let r = web::record(
        session,
        session.realm_id,
        web::AuditAction::SessionRevoked,
        "session",
        codec::uuid_text(target).as_str(),
        metadata,
    );
    proof {
        assert(r@.metadata =~= self_revoke_event(*session, target, batch).metadata);
    }
    r
}

// ---------------------------------------------------------------------------
// The log
// ---------------------------------------------------------------------------

/// An event as the log holds it.
pub struct AuditRecord {
    pub timestamp: i64,
    pub actor: String,
    pub action: String,
    pub resource_type: String,
    pub resource_id: String,
}

/// An event as the page shows it.
pub struct AuditRow {
    /// The event.
    pub event: AuditRecord,
    /// When it happened.
    pub timestamp_display: String,
    /// Who did it.
    pub actor_display: String,
    /// What it was done to.
    pub resource_display: String,
}

/// Labels found earlier: each with the kind and the identifier of the thing
/// that it labels.
pub struct LabelCache {
    pub entries: Vec<(String, String, String)>,
}

/// The label of a thing among entries; the first one counts.
pub open spec fn label_of(entries: Seq<(String, String, String)>, key: (Seq<char>, Seq<char>)) -> Option<
    Seq<char>,
>
    decreases entries.len(),
{
    if entries.len() == 0 {
        None
    } else if entries[0].0@ == key.0 && entries[0].1@ == key.1 {
        Some(entries[0].2@)
    } else {
        label_of(entries.drop_first(), key)
    }
}

impl LabelCache {
    /// The labels by what they label.
    pub open spec fn label(self, key: (Seq<char>, Seq<char>)) -> Option<Seq<char>> {
        label_of(self.entries@, key)
    }

    /// No labels yet.
    pub fn new() -> (r: LabelCache)
        ensures
            forall|key: (Seq<char>, Seq<char>)| #[trigger] r.label(key) is None,
    {
        LabelCache { entries: Vec::new() }
    }

    /// Looks a label up.
    pub fn get(&self, kind: &str, id: &str) -> (r: Option<String>)
        ensures
            text::opt_text(r) == self.label((kind@, id@)),
    {
        let mut i: usize = 0;
        proof {
            assert(self.entries@.skip(0) =~= self.entries@);
        }
        while i < self.entries.len()
            invariant
                i <= self.entries.len(),
                label_of(self.entries@, (kind@, id@)) == label_of(
                    self.entries@.skip(i as int),
                    (kind@, id@),
                ),
            decreases self.entries.len() - i,
        {
            proof {
                assert(self.entries@.skip(i as int).drop_first() =~= self.entries@.skip(i + 1));
            }
            if text::same(self.entries[i].0.as_str(), kind) && text::same(
                self.entries[i].1.as_str(),
                id,
            ) {
                return Some(self.entries[i].2.clone());
            }
            i += 1;
        }
        None
    }

    /// Remembers a label, where there is none yet.
    pub fn put(&mut self, kind: &str, id: &str, label: &str)
        ensures
            forall|k: (Seq<char>, Seq<char>)| #[trigger]
                final(self).label(k) == if old(self).label(k) is None && k == (kind@, id@) {
                    Some(label@)
                } else {
                    old(self).label(k)
                },
    {
        let ghost before = self.entries@;
        self.entries.push((kind.to_owned(), id.to_owned(), label.to_owned()));
        proof {
            let last = self.entries@.last();
            assert forall|k: (Seq<char>, Seq<char>)| #[trigger]
                self.label(k) == if label_of(before, k) is None && k == (kind@, id@) {
                Some(label@)
            } else {
                label_of(before, k)
            } by {
                lemma_label_push(before, last, k);
            }
        }
    }
}

proof fn lemma_label_push(
    entries: Seq<(String, String, String)>,
    e: (String, String, String),
    k: (Seq<char>, Seq<char>),
)
    ensures
        label_of(entries.push(e), k) == if label_of(entries, k) is None && k == (e.0@, e.1@) {
            Some(e.2@)
        } else {
            label_of(entries, k)
        },
    decreases entries.len(),
{
    reveal_with_fuel(label_of, 2);
    if entries.len() == 0 {
        assert(entries.push(e).drop_first() =~= Seq::<(String, String, String)>::empty());
        assert(entries.push(e)[0] == e);
    } else {
        lemma_label_push(entries.drop_first(), e, k);
        assert(entries.push(e).drop_first() =~= entries.drop_first().push(e));
    }
}

/// What it takes to name the actor of an event.
pub enum ActorQuery {
    /// The name is known.
    Known(String),
    /// The user has to be looked up in the realm of the event and, where
    /// `elsewhere` says so, in the system realm.
    User { id: u128, elsewhere: bool },
}

/// Finds out what it takes to name an actor: `system` stands for itself, so
/// does what is no UUID, and a known name is not looked up again.
pub fn audit_actor_query(
    actor: &str,
    realm_id: u128,
    system_realm_id: u128,
    cache: &LabelCache,
) -> (r: ActorQuery)
    ensures
        match r {
            ActorQuery::Known(name) => name@ == if actor@ == "system"@ {
                "system"@
            } else {
                match cache.label((""@, actor@)) {
                    Some(label) => label,
                    None => actor@,
                }
            } && (actor@ == "system"@ || cache.label((""@, actor@)) is Some || codec::uuid_of(
                actor@,
            ) is None),
            ActorQuery::User { id, elsewhere } => {
                &&& actor@ != "system"@
                &&& cache.label((""@, actor@)) is None
                &&& codec::uuid_of(actor@) == Some(id)
                &&& elsewhere == (realm_id != system_realm_id)
            },
        },
{
    if text::same(actor, "system") {
        return ActorQuery::Known("system".to_owned());
    }
    match cache.get("", actor) {
        Some(label) => ActorQuery::Known(label),
        None => match codec::parse_uuid(actor) {
            Some(id) => ActorQuery::User { id, elsewhere: realm_id != system_realm_id },
            None => ActorQuery::Known(actor.to_owned()),
        },
    }
}

/// The name of an actor: the email in the realm of the event, else that in the
/// system realm, else the actor as recorded.
pub open spec fn actor_name(
    actor: Seq<char>,
    here: Option<Seq<char>>,
    in_system: Option<Seq<char>>,
) -> Seq<char> {
    match here {
        Some(email) => email,
        None => match in_system {
            Some(email) => email,
            None => actor,
        },
    }
}

/// An actor known in the realm of the event goes by the email address there; one
/// known in the system realm alone, by the address there; any other, by what was
/// recorded.
pub proof fn law_actor_name(
    actor: Seq<char>,
    here: Option<Seq<char>>,
    in_system: Option<Seq<char>>,
)
    ensures
        here matches Some(email) ==> actor_name(actor, here, in_system) == email,
        here is None ==> (in_system matches Some(email) ==> actor_name(actor, here, in_system)
            == email),
        here is None && in_system is None ==> actor_name(actor, here, in_system) == actor,
{
}

/// Names an actor by what was looked up, and remembers the name.
pub fn resolve_audit_actor(
    actor: &str,
    here: &Option<String>,
    in_system: &Option<String>,
    cache: &mut LabelCache,
) -> (r: String)
    ensures
        r@ == actor_name(actor@, text::opt_text(*here), text::opt_text(*in_system)),
        here matches Some(email) ==> r@ == email@,
        here is None ==> (in_system matches Some(email) ==> r@ == email@),
        here is None && in_system is None ==> r@ == actor@,
        forall|k: (Seq<char>, Seq<char>)| #[trigger]
            final(cache).label(k) == if old(cache).label(k) is None && k == (""@, actor@) {
                Some(r@)
            } else {
                old(cache).label(k)
            },
{
    let name = match here {
        Some(email) => email.clone(),
        None => match in_system {
            Some(email) => email.clone(),
            None => actor.to_owned(),
        },
    };
    cache.put("", actor, name.as_str());
    name
}

/// What it takes to name the thing that an event is about.
pub enum ResourceQuery {
    /// The name is known.
    Known(String),
    /// A user of the realm.
    User(u128),
    /// A realm.
    Realm(u128),
    /// An organization of the realm.
    Organization(u128),
    /// An application of the realm.
    Client(u128),
    /// Nothing that can be looked up.
    Nothing,
}

/// Whether things of a type are applications. Consents are recorded under the
/// longer name.
pub open spec fn names_client(resource_type: Seq<char>) -> bool {
    resource_type == "client"@ || resource_type == "oauth_client"@
}

/// What it takes to name a thing of a type with a UUID.
pub open spec fn lookup_of(resource_type: Seq<char>, id: u128) -> ResourceQuery {
    if resource_type == "user"@ {
        ResourceQuery::User(id)
    } else if resource_type == "realm"@ {
        ResourceQuery::Realm(id)
    } else if resource_type == "organization"@ {
        ResourceQuery::Organization(id)
    } else if names_client(resource_type) {
        ResourceQuery::Client(id)
    } else {
        ResourceQuery::Nothing
    }
}

/// Finds out what it takes to name a thing: users, realms, organizations and
/// applications are looked up by their UUID, a known name is not looked up
/// again.
pub fn audit_resource_query(resource_type: &str, resource_id: &str, cache: &LabelCache) -> (r:
    ResourceQuery)
    ensures
        match cache.label((resource_type@, resource_id@)) {
            Some(label) => r is Known && r->Known_0@ == label,
            None => r == match codec::uuid_of(resource_id@) {
                Some(id) => lookup_of(resource_type@, id),
                None => ResourceQuery::Nothing,
            },
        },
{
    if let Some(label) = cache.get(resource_type, resource_id) {
        return ResourceQuery::Known(label);
    }
    match codec::parse_uuid(resource_id) {
        None => ResourceQuery::Nothing,
        Some(id) => if text::same(resource_type, "user") {
            ResourceQuery::User(id)
        } else if text::same(resource_type, "realm") {
            ResourceQuery::Realm(id)
        } else if text::same(resource_type, "organization") {
            ResourceQuery::Organization(id)
        } else if text::same(resource_type, "client") || text::same(resource_type, "oauth_client") {
            ResourceQuery::Client(id)
        } else {
            ResourceQuery::Nothing
        },
    }
}

/// The name of a thing: what was found, else the start of its identifier.
pub open spec fn resource_name(resource_id: Seq<char>, found: Option<Seq<char>>) -> Seq<char> {
    match found {
        Some(name) => name,
        None => text::first_bytes(resource_id, 8) + "…"@,
    }
}

/// Names a thing by what was looked up, and remembers the name.
pub fn resolve_audit_resource(
    resource_type: &str,
    resource_id: &str,
    found: &Option<String>,
    cache: &mut LabelCache,
) -> (r: String)
    ensures
        r@ == resource_name(resource_id@, text::opt_text(*found)),
        found matches Some(name) ==> r@ == name@,
        found is None ==> r@ == text::first_bytes(resource_id@, 8) + "…"@,
        forall|k: (Seq<char>, Seq<char>)| #[trigger]
            final(cache).label(k) == if old(cache).label(k) is None && k == (
                resource_type@,
                resource_id@,
            ) {
                Some(r@)
            } else {
                old(cache).label(k)
            },
{
    let name = match found {
        Some(name) => name.clone(),
        None => text::cut_bytes(resource_id, 8).concat("…"),
    };
    cache.put(resource_type, resource_id, name.as_str());
    name
}

/// Shows an event.
pub fn audit_row(event: AuditRecord, actor_display: String, resource_display: String) -> (r:
    AuditRow)
    ensures
        r.event == event,
        r.timestamp_display@ == calendar::instant_text(event.timestamp as int),
        r.actor_display == actor_display,
        r.resource_display == resource_display,
{
    let timestamp_display = calendar::format_ts(event.timestamp);
    AuditRow { event, timestamp_display, actor_display, resource_display }
}

// ---------------------------------------------------------------------------
// The page
// ---------------------------------------------------------------------------

/// Query parameters of the audit page.
pub struct AuditFilterParams {
    /// Filter by actor.
    pub actor: Option<String>,
    /// Filter by action name.
    pub action: Option<String>,
    /// First day (`YYYY-MM-DD`).
    pub start_date: Option<String>,
    /// Last day (`YYYY-MM-DD`).
    pub end_date: Option<String>,
    /// How many events to show at most.
    pub limit: Option<usize>,
}

/// What the log is asked for.
pub struct AuditQuery {
    pub realm_id: u128,
    pub start_time: Option<i64>,
    pub end_time: Option<i64>,
    pub actor: Option<String>,
    pub action: Option<String>,
    pub limit: usize,
}

/// The start of the day that a filter names, if it names one.
pub open spec fn filter_start(date: Option<String>) -> Option<int> {
    match date {
        Some(d) => if d@.len() == 0 {
            None
        } else {
            calendar::date_start(d@)
        },
        None => None,
    }
}

/// Whether the day after the one that a filter names can be held.
pub open spec fn filter_fits(date: Option<String>) -> bool {
    filter_start(date) matches Some(t) ==> i64::MIN <= t && t + calendar::DAY_MICROS <= i64::MAX
}

/// The number of events to show: fifty unless asked otherwise, two hundred at
/// most.
pub open spec fn shown_limit(limit: Option<usize>) -> int {
    let n: int = match limit {
        Some(n) => n as int,
        None => 50,
    };
    if n > 200 {
        200
    } else {
        n
    }
}

/// Tests whether the day after the one that a filter names can be held.
pub fn filter_in_range(date: &Option<String>) -> (r: bool)
    ensures
        r == filter_fits(*date),
{
    match date {
        None => true,
        Some(d) => if d.as_str().is_empty() {
            true
        } else if !calendar::date_in_range(d.as_str()) {
            false
        } else {
            match calendar::parse_date_to_timestamp(d.as_str()) {
                Some(t) => t <= i64::MAX - calendar::DAY_MICROS,
                None => true,
            }
        },
    }
}

fn filter_day(date: &Option<String>) -> (r: Option<i64>)
    requires
        filter_fits(*date),
    ensures
        match r {
            Some(t) => filter_start(*date) == Some(t as int),
            None => filter_start(*date) is None,
        },
{
    match date {
        None => None,
        Some(d) => if d.as_str().is_empty() {
            None
        } else {
            calendar::parse_date_to_timestamp(d.as_str())
        },
    }
}

/// An optional text, where it is not empty.
pub open spec fn present(o: Option<String>) -> Option<Seq<char>> {
    match o {
        Some(s) => if s@.len() == 0 {
            None
        } else {
            Some(s@)
        },
        None => None,
    }
}

/// Turns the filters into a query. The last day counts in full; `action` is
/// the action filter where the log knows it.
pub fn admin_audit_list_query(
    params: &AuditFilterParams,
    realm_id: u128,
    action: Option<String>,
) -> (r: AuditQuery)
    requires
        filter_fits(params.start_date),
        filter_fits(params.end_date),
    ensures
        r.realm_id == realm_id,
        match r.start_time {
            Some(t) => filter_start(params.start_date) == Some(t as int),
            None => filter_start(params.start_date) is None,
        },
        match r.end_time {
            Some(t) => filter_start(params.end_date) == Some(t - calendar::DAY_MICROS),
            None => filter_start(params.end_date) is None,
        },
        text::opt_text(r.actor) == present(params.actor),
        r.action == action,
        r.limit == shown_limit(params.limit),
{
    let start_time = filter_day(&params.start_date);
    let end_time = match filter_day(&params.end_date) {
        Some(t) => Some(t + calendar::DAY_MICROS),
        None => None,
    };
    let actor = match &params.actor {
        Some(a) => if a.as_str().is_empty() {
            None
        } else {
            Some(a.clone())
        },
        None => None,
    };
    AuditQuery { realm_id, start_time, end_time, actor, action, limit: clamp(params.limit) }
}

fn clamp(limit: Option<usize>) -> (r: usize)
    ensures
        r == shown_limit(limit),
{
    let n: usize = match limit {
        Some(n) => n,
        None => 50,
    };
    if n > 200 {
        200
    } else {
        n
    }
}

/// The audit page.
pub struct AuditListTemplate {
    pub events: Vec<AuditRow>,
    pub form_actor: String,
    pub form_action: String,
    pub form_start_date: String,
    pub form_end_date: String,
    pub form_limit: String,
    /// Every action that the log knows, in alphabetical order.
    pub available_actions: Vec<String>,
    pub flash_message: Option<String>,
    pub chrome: web::Chrome,
}

/// The rows of the audit page alone.
pub struct AuditRowsTemplate {
    pub events: Vec<AuditRow>,
    pub theme_css: String,
}

/// The audit page or its rows.
pub enum AuditPage {
    Rows(AuditRowsTemplate),
    Full(AuditListTemplate),
}

fn or_empty(o: &Option<String>) -> (r: String)
    ensures
        r@ == match o {
            Some(s) => s@,
            None => Seq::empty(),
        },
{
    match o {
        Some(s) => s.clone(),
        None => String::new(),
    }
}

/// Whether a field shows what was entered.
pub open spec fn repeats(field: String, entered: Option<String>) -> bool {
    field@ == match entered {
        Some(s) => s@,
        None => Seq::empty(),
    }
}

/// Shows the events that were found: the rows alone for HTMX, else the page
/// with the filters as they were entered.
pub fn admin_audit_list(
    site: &web::Site,
    session: &web::UiSession,
    params: &AuditFilterParams,
    is_htmx: bool,
    actions: Vec<String>,
    found: Result<Vec<AuditRow>, web::EngineError>,
) -> (r: web::Reply<AuditPage>)
    ensures
        found is Err ==> r is ServerError,
        found matches Ok(rows) ==> r is Page && match r->Page_0 {
            AuditPage::Rows(p) => {
                &&& is_htmx
                &&& p.events == rows
                &&& p.theme_css@ == site.theme_css@
            },
            AuditPage::Full(p) => {
                &&& !is_htmx
                &&& p.events == rows
                &&& repeats(p.form_actor, params.actor)
                &&& repeats(p.form_action, params.action)
                &&& repeats(p.form_start_date, params.start_date)
                &&& repeats(p.form_end_date, params.end_date)
                &&& p.form_limit@ == text::decimal(shown_limit(params.limit) as nat)
                &&& text::texts(p.available_actions@) == order::sorted(
                    text::texts(actions@),
                    order::text_order(),
                )
                &&& p.flash_message is None
                &&& p.chrome.is_admin_page(*site, *session, "audit"@)
                &&& p.chrome.flash is None
            },
        },
{
    match found {
        Err(_) => web::Reply::ServerError,
        Ok(events) => if is_htmx {
            web::Reply::Page(
                AuditPage::Rows(AuditRowsTemplate { events, theme_css: site.theme_css.clone() }),
            )
        } else {
            web::Reply::Page(
                AuditPage::Full(
                    AuditListTemplate {
                        events,
                        form_actor: or_empty(&params.actor),
                        form_action: or_empty(&params.action),
                        form_start_date: or_empty(&params.start_date),
                        form_end_date: or_empty(&params.end_date),
                        form_limit: text::decimal_u64(clamp(params.limit) as u64),
                        available_actions: order::sort_strings(actions),
                        flash_message: None,
                        chrome: web::Chrome::admin(site, session, "audit"),
                    },
                ),
            )
        },
    }
}

/// What the page says about the integrity of the log.
pub open spec fn integrity_message(intact: bool) -> Seq<char> {
    if intact {
        "Audit chain integrity verified successfully."@
    } else {
        "Integrity violation detected! The audit chain may have been tampered with."@
    }
}

/// Shows whether the log is intact.
pub fn admin_audit_verify_integrity(
    site: &web::Site,
    session: &web::UiSession,
    actions: Vec<String>,
    verified: Result<bool, web::EngineError>,
) -> (r: web::Reply<AuditListTemplate>)
    ensures
        verified is Err ==> r is ServerError,
        verified matches Ok(intact) ==> r is Page && {
            let p = r->Page_0;
            &&& p.events@.len() == 0
            &&& p.form_actor@.len() == 0
            &&& p.form_action@.len() == 0
            &&& p.form_start_date@.len() == 0
            &&& p.form_end_date@.len() == 0
            &&& p.form_limit@ == "50"@
            &&& text::texts(p.available_actions@) == order::sorted(
                text::texts(actions@),
                order::text_order(),
            )
            &&& text::opt_text(p.flash_message) == Some(integrity_message(intact))
            &&& p.chrome.is_admin_page(*site, *session, "audit"@)
            &&& p.chrome.flash is None
        },
{
    match verified {
        Err(_) => web::Reply::ServerError,
        Ok(intact) => {
            let message = if intact {
                "Audit chain integrity verified successfully.".to_owned()
            } else {
                "Integrity violation detected! The audit chain may have been tampered with.".to_owned()
            };
            web::Reply::Page(
                AuditListTemplate {
                    events: Vec::new(),
                    form_actor: String::new(),
                    form_action: String::new(),
                    form_start_date: String::new(),
                    form_end_date: String::new(),
                    form_limit: "50".to_owned(),
                    available_actions: order::sort_strings(actions),
                    flash_message: Some(message),
                    chrome: web::Chrome::admin(site, session, "audit"),
                },
            )
        },
    }
}

// ---------------------------------------------------------------------------
// What is recorded, and how it is shown
// ---------------------------------------------------------------------------

/// Each operation is recorded as what it is, and no other word is.
pub proof fn law_crud_action(
    op: Seq<char>,
    create: web::AuditAction,
    update: web::AuditAction,
    delete: web::AuditAction,
)
    ensures
        crud_action("create"@, create, update, delete) == Some(create),
        crud_action("update"@, create, update, delete) == Some(update),
        crud_action("delete"@, create, update, delete) == Some(delete),
        crud_action(op, create, update, delete) is Some ==> op == "create"@ || op == "update"@
            || op == "delete"@,
{
    reveal_strlit("create");
    reveal_strlit("update");
    reveal_strlit("delete");
    assert("create"@[0] == 'c' && "update"@[0] == 'u' && "delete"@[0] == 'd');
}

/// An event that is recorded tells who did what to which thing in which realm,
/// and that it was done through the pages; an unknown operation leaves none.
pub proof fn law_records(
    event: Option<web::AuditEvent>,
    session: web::UiSession,
    realm_id: u128,
    action: Option<web::AuditAction>,
    resource_type: Seq<char>,
    resource: u128,
)
    requires
        records(event, session, realm_id, action, resource_type, resource),
    ensures
        event is Some <==> action is Some,
        event matches Some(e) ==> {
            &&& Some(e.action) == action
            &&& e.realm_id == realm_id
            &&& e.actor@ == codec::hyphenated(session.user_id)
            &&& e.resource_type@ == resource_type
            &&& e.resource_id@ == codec::hyphenated(resource)
            &&& web::told(e@.metadata, "via"@) == Some(web::MetaView::Text("ui"@))
        },
{
    if let Some(e) = event {
        web::law_ui_event(
            session,
            realm_id,
            e.action,
            resource_type,
            codec::hyphenated(resource),
            web::via_ui(),
        );
    }
}

/// Changes to a group's members are recorded apart from changes to the group.
pub proof fn law_group_action(op: Seq<char>)
    ensures
        group_action("member_add"@) == Some(web::AuditAction::GroupMemberAdded),
        group_action("member_remove"@) == Some(web::AuditAction::GroupMemberRemoved),
        group_action("create"@) == Some(web::AuditAction::GroupCreated),
        group_action("update"@) == Some(web::AuditAction::GroupUpdated),
        group_action("delete"@) == Some(web::AuditAction::GroupDeleted),
        group_action(op) is Some ==> op == "member_add"@ || op == "member_remove"@ || op
            == "create"@ || op == "update"@ || op == "delete"@,
{
    reveal_strlit("member_add");
    reveal_strlit("member_remove");
    reveal_strlit("create");
    reveal_strlit("update");
    reveal_strlit("delete");
    assert("create"@[0] == 'c' && "update"@[0] == 'u' && "delete"@[0] == 'd');
    assert("member_add"@.len() == 10 && "member_remove"@.len() == 13);
    law_crud_action(
        op,
        web::AuditAction::GroupCreated,
        web::AuditAction::GroupUpdated,
        web::AuditAction::GroupDeleted,
    );
}

/// An event about a member tells what kind of member it is, and which.
pub proof fn law_member_metadata(member_type: Seq<char>, member_id: Seq<char>)
    ensures
        web::told(member_metadata(member_type, member_id), "via"@) == Some(
            web::MetaView::Text("ui"@),
        ),
        web::told(member_metadata(member_type, member_id), "member_type"@) == Some(
            web::MetaView::Text(member_type),
        ),
        web::told(member_metadata(member_type, member_id), "member_id"@) == Some(
            web::MetaView::Text(member_id),
        ),
{
    reveal_strlit("via");
    reveal_strlit("member_type");
    reveal_strlit("member_id");
    let m = member_metadata(member_type, member_id);
    assert(m.last().0 == "member_id"@);
    assert(m.drop_last().last().0 == "member_type"@);
    assert(m.drop_last().drop_last().last().0 == "via"@);
    assert("via"@.len() == 3 && "member_type"@.len() == 11 && "member_id"@.len() == 9);
    reveal_with_fuel(web::told, 4);
}

/// Giving a group a role and taking it away are recorded of that group, with the
/// role.
pub proof fn law_group_role_event(
    session: web::UiSession,
    realm_id: u128,
    group_id: u128,
    assigned: bool,
    role: Seq<char>,
)
    ensures
        ({
            let e = group_role_event(session, realm_id, group_id, assigned, role);
            &&& e.realm_id == realm_id
            &&& e.actor == codec::hyphenated(session.user_id)
            &&& assigned ==> e.action is RoleAssigned
            &&& !assigned ==> e.action is RoleRevoked
            &&& e.resource_type == "group"@
            &&& e.resource_id == codec::hyphenated(group_id)
            &&& web::told(e.metadata, "via"@) == Some(web::MetaView::Text("ui"@))
            &&& web::told(e.metadata, "subject_type"@) == Some(web::MetaView::Text("group"@))
            &&& web::told(e.metadata, "role"@) == Some(web::MetaView::Text(role))
        }),
{
    reveal_strlit("via");
    reveal_strlit("subject_type");
    reveal_strlit("role");
    let m = group_role_event(session, realm_id, group_id, assigned, role).metadata;
    assert(m.last().0 == "role"@);
    assert(m.drop_last().last().0 == "subject_type"@);
    assert(m.drop_last().drop_last().last().0 == "via"@);
    assert("via"@.len() == 3 && "subject_type"@.len() == 12 && "role"@.len() == 4);
    reveal_with_fuel(web::told, 4);
}

/// A change of the second factor is recorded of the person who makes it, with
/// what was done.
pub proof fn law_mfa_event(session: web::UiSession, op: Seq<char>)
    ensures
        ({
            let e = mfa_event(session, op);
            &&& e.realm_id == session.realm_id
            &&& e.actor == codec::hyphenated(session.user_id)
            &&& e.action is CredentialChanged
            &&& e.resource_type == "user"@
            &&& e.resource_id == codec::hyphenated(session.user_id)
            &&& web::told(e.metadata, "via"@) == Some(web::MetaView::Text("ui"@))
            &&& web::told(e.metadata, "op"@) == Some(web::MetaView::Text(op))
        }),
{
    reveal_strlit("via");
    reveal_strlit("op");
    let m = mfa_event(session, op).metadata;
    assert(m.last().0 == "op"@);
    assert(m.drop_last().last().0 == "via"@);
    assert("via"@.len() == 3 && "op"@.len() == 2);
    reveal_with_fuel(web::told, 3);
}

/// Ending an own session is recorded of that session, as done by its owner, and
/// marked where it was one of many.
pub proof fn law_self_revoke_event(session: web::UiSession, target: u128, batch: bool)
    ensures
        ({
            let e = self_revoke_event(session, target, batch);
            &&& e.realm_id == session.realm_id
            &&& e.actor == codec::hyphenated(session.user_id)
            &&& e.action is SessionRevoked
            &&& e.resource_type == "session"@
            &&& e.resource_id == codec::hyphenated(target)
            &&& web::told(e.metadata, "via"@) == Some(web::MetaView::Text("self"@))
            &&& batch ==> web::told(e.metadata, "batch"@) == Some(web::MetaView::Flag(true))
            &&& !batch ==> web::told(e.metadata, "batch"@) is None
        }),
{
    reveal_strlit("via");
    reveal_strlit("batch");
    let m = self_revoke_event(session, target, batch).metadata;
    assert("via"@.len() == 3 && "batch"@.len() == 5);
    if batch {
        assert(m.last().0 == "batch"@);
        assert(m.drop_last().last().0 == "via"@);
    } else {
        assert(m.last().0 == "via"@);
        assert(m.drop_last().len() == 0);
    }
    reveal_with_fuel(web::told, 3);
}

/// Users, realms, organizations and applications are looked up as what they are,
/// under the identifier recorded; nothing else is looked up.
pub proof fn law_lookup(resource_type: Seq<char>, id: u128)
    ensures
        lookup_of("user"@, id) == ResourceQuery::User(id),
        lookup_of("realm"@, id) == ResourceQuery::Realm(id),
        lookup_of("organization"@, id) == ResourceQuery::Organization(id),
        lookup_of("client"@, id) == ResourceQuery::Client(id),
        lookup_of("oauth_client"@, id) == ResourceQuery::Client(id),
        lookup_of(resource_type, id) is Nothing <==> resource_type != "user"@ && resource_type
            != "realm"@ && resource_type != "organization"@ && resource_type != "client"@
            && resource_type != "oauth_client"@,
{
    reveal_strlit("user");
    reveal_strlit("realm");
    reveal_strlit("organization");
    reveal_strlit("client");
    reveal_strlit("oauth_client");
    assert("user"@.len() == 4 && "realm"@.len() == 5 && "client"@.len() == 6);
    assert("organization"@[1] == 'r' && "oauth_client"@[1] == 'a');
}

/// A thing that was found goes by its name; any other by a start of its
/// identifier, marked as cut.
pub proof fn law_resource_name(resource_id: Seq<char>, found: Option<Seq<char>>)
    ensures
        found matches Some(name) ==> resource_name(resource_id, found) == name,
        found is None ==> resource_name(resource_id, found) == text::first_bytes(resource_id, 8)
            + "…"@,
{
}

/// The log is read from the start of the first day to the end of the last one, by
/// the filters that were filled in, and at most two hundred events at a time.
pub proof fn law_filters(date: Option<String>, entered: Option<String>, limit: Option<usize>)
    ensures
        date is None ==> filter_start(date) is None,
        date matches Some(d) ==> filter_start(date) == (if d@.len() == 0 {
            None
        } else {
            calendar::date_start(d@)
        }),
        entered is None ==> present(entered) is None,
        entered matches Some(e) ==> (present(entered) is None <==> e@.len() == 0),
        entered matches Some(e) ==> (e@.len() > 0 ==> present(entered) == Some(e@)),
        limit is None ==> shown_limit(limit) == 50,
        limit matches Some(n) ==> shown_limit(limit) <= 200 && shown_limit(limit) <= n && (n <= 200
            ==> shown_limit(limit) == n) && (n > 200 ==> shown_limit(limit) == 200),
{
}

/// The two outcomes of a check are told apart.
pub proof fn law_integrity_message()
    ensures
        integrity_message(true) == "Audit chain integrity verified successfully."@,
        integrity_message(false)
            == "Integrity violation detected! The audit chain may have been tampered with."@,
{
}

/// A field repeats what was entered, and is empty where nothing was.
pub proof fn law_repeats(field: String, entered: Option<String>)
    ensures
        entered matches Some(s) ==> (repeats(field, entered) <==> field@ == s@),
        entered is None ==> (repeats(field, entered) <==> field@.len() == 0),
{
    if field@.len() == 0 {
        assert(field@ =~= Seq::<char>::empty());
    }
}

/// A day fits where there is none, or where its start and that of the day after
/// can be held.
pub proof fn law_filter_fits(date: Option<String>)
    ensures
        filter_start(date) is None ==> filter_fits(date),
        filter_start(date) matches Some(t) ==> (filter_fits(date) <==> i64::MIN <= t && t
            + 86_400_000_000 <= i64::MAX),
{
}

} // verus!
