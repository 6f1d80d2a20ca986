//! The notification center's view of incident records.

use vstd::prelude::*;
use crate::text::{opt_string_view, str_to_string};

verus! {

/// An incident record as the session store keeps it; its scope is given
/// by name.
#[derive(Clone, Debug)]
pub struct NotificationRecord {
    pub notification_id: String,
    pub message: String,
    pub scope: String,
    pub level: Option<String>,
    pub title: Option<String>,
    pub source: Option<String>,
    pub workspace_id: Option<String>,
    pub session_id: Option<String>,
    pub handled: bool,
    pub resolved: bool,
    pub created_at: u64,
    pub action_required: bool,
    pub count_unread: bool,
    pub occurrence_count: u32,
}

/// An incident as the notification center shows it.
#[derive(Clone, Debug)]
pub struct IncidentNotificationItemDto {
    pub notification_id: String,
    pub message: String,
    pub kind: String,
    pub scope: String,
    pub level: String,
    pub title: Option<String>,
    pub source: Option<String>,
    pub workspace_id: Option<String>,
    pub session_id: Option<String>,
    pub handled: bool,
    pub read: bool,
    pub resolved: bool,
    pub created_at: u64,
    pub action_required: bool,
    pub count_unread: bool,
    pub occurrence_count: u32,
}

/// The item shows the record: an `incident`, at level `error` unless the
/// record names one, read once handled, and seen at least once.
pub open spec fn item_of(item: IncidentNotificationItemDto, record: NotificationRecord) -> bool {
    &&& item.notification_id@ == record.notification_id@
    &&& item.message@ == record.message@
    &&& item.kind@ == "incident"@
    &&& item.scope@ == record.scope@
    &&& item.level@ == match opt_string_view(record.level) {
        Some(l) => l,
        None => "error"@,
    }
    &&& opt_string_view(item.title) == opt_string_view(record.title)
    &&& opt_string_view(item.source) == opt_string_view(record.source)
    &&& opt_string_view(item.workspace_id) == opt_string_view(record.workspace_id)
    &&& opt_string_view(item.session_id) == opt_string_view(record.session_id)
    &&& item.handled == record.handled && item.read == record.handled
    &&& item.resolved == record.resolved
    &&& item.created_at == record.created_at
    &&& item.action_required == record.action_required
    &&& item.count_unread == record.count_unread
    &&& item.occurrence_count == if record.occurrence_count == 0 { 1 } else { record.occurrence_count }
}

impl IncidentNotificationItemDto {
    /// The notification center's item for a record.
    pub fn from_record(record: NotificationRecord) -> (r: Self)
        ensures
            item_of(r, record),
    {
        let level = match &record.level {
            Some(l) => l.clone(),
            None => str_to_string("error"),
        };
        let occurrence_count = if record.occurrence_count == 0 { 1 } else { record.occurrence_count };
        IncidentNotificationItemDto {
            notification_id: record.notification_id,
            message: record.message,
            kind: str_to_string("incident"),
            scope: record.scope,
            level,
            title: record.title,
            source: record.source,
            workspace_id: record.workspace_id,
            session_id: record.session_id,
            handled: record.handled,
            read: record.handled,
            resolved: record.resolved,
            created_at: record.created_at,
            action_required: record.action_required,
            count_unread: record.count_unread,
            occurrence_count,
        }
    }
}

/// The notification center at one time.
#[derive(Clone, Debug)]
pub struct NotificationCenterSnapshotDto {
    pub last_updated_at: u64,
    pub records: Vec<IncidentNotificationItemDto>,
}

/// The notifications of a workspace, or of one of its sessions.
#[derive(Clone, Debug)]
pub struct NotificationsResponseDto {
    pub workspace_id: String,
    pub session_id: Option<String>,
    pub notifications: NotificationCenterSnapshotDto,
}

impl NotificationsResponseDto {
    /// The response that shows `records`, in order, as of `now`.
    pub fn from_records(workspace_id: String, session_id: Option<&str>, records: Vec<NotificationRecord>, now: u64) -> (r: Self)
        ensures
            r.workspace_id == workspace_id,
            opt_string_view(r.session_id) == crate::text::opt_str_view(session_id),
            r.notifications.last_updated_at == now,
            r.notifications.records@.len() == records@.len(),
            forall|i: int| 0 <= i < records@.len() ==> item_of(#[trigger] r.notifications.records@[i], records@[i]),
    {
        let ghost all = records@;
        let n = records.len();
        let mut rest = records;
        let mut items: Vec<IncidentNotificationItemDto> = Vec::new();
        let mut k: usize = 0;
        assert(all.skip(0) =~= all);
        while rest.len() > 0
            invariant
                k + rest@.len() == all.len(),
                all.len() == n,
                rest@ == all.skip(k as int),
                items@.len() == k,
                forall|i: int| 0 <= i < k ==> item_of(#[trigger] items@[i], all[i]),
            decreases rest@.len(),
        {
            let record = rest.remove(0);
            proof {
                assert(record == all[k as int]);
                assert(rest@ =~= all.skip(k + 1));
            }
            items.push(IncidentNotificationItemDto::from_record(record));
            k = k + 1;
        }
        NotificationsResponseDto {
            workspace_id,
            session_id: match session_id {
                Some(s) => Some(str_to_string(s)),
                None => None,
            },
            notifications: NotificationCenterSnapshotDto { last_updated_at: now, records: items },
        }
    }
}

} // verus!
