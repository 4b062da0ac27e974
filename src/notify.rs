//! The notification gate: per-device, per-classification suppression
//! windows in front of an external notifier, with a bounded audit log.
//!
//! Sending is two steps around the external call. [`begin_send`] decides:
//! it refuses (and logs) when notifications are disabled or the same device
//! and classification was notified less than a window ago, and otherwise
//! clears the notification to be delivered. [`finish_send`] takes what the
//! notifier did with it, restarts the window on success and logs the
//! outcome.
//!
//! [`begin_send`]: DesktopNotificationManager::begin_send
//! [`finish_send`]: DesktopNotificationManager::finish_send
use crate::config::span_of_secs;
use crate::device::{clock_millis, millis_in, Device, DeviceType, DeviceView};
use crate::text::{decimal, decimal_of, join};
use core::time::Duration;
use vstd::prelude::*;

verus! {

/// Which suppression window a notification falls under.
#[derive(Debug, Clone, Copy, PartialEq, Eq, Structural)]
pub enum Classification {
    LowBattery,
    Connectivity,
}

/// A notification about a device.
#[derive(Debug)]
pub enum NotificationType {
    LowBattery { device: Device, threshold: u8 },
    DeviceConnected(Device),
    DeviceDisconnected(Device),
}

/// The mathematical value of a [`NotificationType`].
pub enum NotificationView {
    LowBattery { device: DeviceView, threshold: u8 },
    Connected(DeviceView),
    Disconnected(DeviceView),
}

impl NotificationView {
    /// The device the notification is about.
    pub open spec fn device(self) -> DeviceView {
        match self {
            NotificationView::LowBattery { device, .. } => device,
            NotificationView::Connected(d) => d,
            NotificationView::Disconnected(d) => d,
        }
    }

    /// The suppression window the notification falls under.
    pub open spec fn classification(self) -> Classification {
        match self {
            NotificationView::LowBattery { .. } => Classification::LowBattery,
            _ => Classification::Connectivity,
        }
    }
}

impl View for NotificationType {
    type V = NotificationView;

    open spec fn view(&self) -> NotificationView {
        match self {
            NotificationType::LowBattery { device, threshold } => NotificationView::LowBattery {
                device: device@,
                threshold: *threshold,
            },
            NotificationType::DeviceConnected(d) => NotificationView::Connected(d@),
            NotificationType::DeviceDisconnected(d) => NotificationView::Disconnected(d@),
        }
    }
}

impl Clone for NotificationType {
    fn clone(&self) -> (r: Self)
        ensures
            r@ == self@,
    {
        match self {
            NotificationType::LowBattery { device, threshold } => NotificationType::LowBattery {
                device: device.clone(),
                threshold: *threshold,
            },
            NotificationType::DeviceConnected(d) => NotificationType::DeviceConnected(d.clone()),
            NotificationType::DeviceDisconnected(d) => NotificationType::DeviceDisconnected(
                d.clone(),
            ),
        }
    }
}

impl NotificationType {
    /// The device the notification is about.
    pub fn device(&self) -> (r: &Device)
        ensures
            r@ == self@.device(),
    {
        match self {
            NotificationType::LowBattery { device, .. } => device,
            NotificationType::DeviceConnected(d) => d,
            NotificationType::DeviceDisconnected(d) => d,
        }
    }

    /// The suppression window the notification falls under.
    pub fn classification(&self) -> (r: Classification)
        ensures
            r == self@.classification(),
    {
        match self {
            NotificationType::LowBattery { .. } => Classification::LowBattery,
            _ => Classification::Connectivity,
        }
    }
}

/// One entry of the audit log; `timestamp` is in milliseconds since the
/// Unix epoch.
#[derive(Debug)]
pub struct NotificationRecord {
    pub timestamp: u64,
    pub notification_type: NotificationType,
    pub sent: bool,
}

/// The mathematical value of a [`NotificationRecord`].
pub struct RecordView {
    pub timestamp: u64,
    pub notification: NotificationView,
    pub sent: bool,
}

impl View for NotificationRecord {
    type V = RecordView;

    open spec fn view(&self) -> RecordView {
        RecordView {
            timestamp: self.timestamp,
            notification: self.notification_type@,
            sent: self.sent,
        }
    }
}

impl Clone for NotificationRecord {
    fn clone(&self) -> (r: Self)
        ensures
            r@ == self@,
    {
        NotificationRecord {
            timestamp: self.timestamp,
            notification_type: self.notification_type.clone(),
            sent: self.sent,
        }
    }
}

/// Why a notification was not shown.
#[derive(Debug, Clone)]
pub enum NotificationError {
    /// The external notifier failed; the text is its message.
    SystemError(String),
    /// Notifications are switched off.
    Disabled,
    /// The same device and classification was notified within the window.
    Suppressed,
    /// The notification could not be built.
    InvalidData(String),
}

/// When a device was last notified under a classification.
struct AlertStamp {
    device_id: String,
    classification: Classification,
    at: u64,
}

/// The mathematical value of an alert stamp.
pub struct StampView {
    pub device_id: Seq<char>,
    pub classification: Classification,
    pub at: u64,
}

impl View for AlertStamp {
    type V = StampView;

    closed spec fn view(&self) -> StampView {
        StampView { device_id: self.device_id@, classification: self.classification, at: self.at }
    }
}

/// The mathematical value of a [`DesktopNotificationManager`].
pub struct GateView {
    pub enabled: bool,
    pub suppression: Duration,
    pub window_ms: u64,
    pub log: Seq<RecordView>,
    pub stamps: Seq<StampView>,
    pub capacity: nat,
}

/// The index of the last stamp for the device and classification, or -1.
pub open spec fn stamp_index(s: Seq<StampView>, id: Seq<char>, c: Classification) -> int
    decreases s.len(),
{
    if s.len() == 0 {
        -1
    } else if s.last().device_id == id && s.last().classification == c {
        s.len() - 1
    } else {
        stamp_index(s.drop_last(), id, c)
    }
}

/// When the device was last notified under the classification.
pub open spec fn stamp_of(s: Seq<StampView>, id: Seq<char>, c: Classification) -> Option<u64> {
    if stamp_index(s, id, c) >= 0 {
        Some(s[stamp_index(s, id, c)].at)
    } else {
        None
    }
}

/// The stamps after notifying the device under the classification at `now`.
pub open spec fn restamped(s: Seq<StampView>, id: Seq<char>, c: Classification, now: u64) -> Seq<
    StampView,
> {
    let i = stamp_index(s, id, c);
    let st = StampView { device_id: id, classification: c, at: now };
    if i >= 0 {
        s.update(i, st)
    } else {
        s.push(st)
    }
}

/// Less than a window has passed since the device was last notified under
/// the notification's classification (a clock that went back suppresses
/// nothing).
pub open spec fn suppressed(g: GateView, n: NotificationView, now: u64) -> bool {
    match stamp_of(g.stamps, n.device().id, n.classification()) {
        Some(t) => t <= now && now - t < g.window_ms,
        None => false,
    }
}

/// The manager clears the notification for delivery.
pub open spec fn admits(g: GateView, n: NotificationView, now: u64) -> bool {
    g.enabled && !suppressed(g, n, now)
}

/// The log after appending a record: the oldest entries go once it holds
/// more than `capacity`.
pub open spec fn logged(log: Seq<RecordView>, rec: RecordView, capacity: nat) -> Seq<RecordView> {
    let l = log.push(rec);
    if l.len() > capacity {
        l.subrange(l.len() - capacity, l.len() as int)
    } else {
        l
    }
}

/// The manager after a successful delivery at `now`.
pub open spec fn after_delivery(g: GateView, n: NotificationView, now: u64) -> GateView {
    GateView {
        stamps: restamped(g.stamps, n.device().id, n.classification(), now),
        log: logged(g.log, RecordView { timestamp: now, notification: n, sent: true }, g.capacity),
        ..g
    }
}

/// The manager after recording a notification that was not shown.
pub open spec fn after_refusal(g: GateView, n: NotificationView, now: u64) -> GateView {
    GateView {
        log: logged(g.log, RecordView { timestamp: now, notification: n, sent: false }, g.capacity),
        ..g
    }
}

proof fn lemma_stamp_index(s: Seq<StampView>, id: Seq<char>, c: Classification)
    ensures
        -1 <= stamp_index(s, id, c) < s.len(),
        stamp_index(s, id, c) >= 0 ==> s[stamp_index(s, id, c)].device_id == id
            && s[stamp_index(s, id, c)].classification == c,
        forall|k: int|
            stamp_index(s, id, c) < k < s.len() ==> !(s[k].device_id == id && s[k].classification
                == c),
    decreases s.len(),
{
    if s.len() > 0 {
        lemma_stamp_index(s.drop_last(), id, c);
        assert forall|k: int| 0 <= k < s.len() - 1 implies s.drop_last()[k] == s[k] by {}
    }
}

/// `stamp_index` is the last matching position.
proof fn lemma_stamp_index_last(s: Seq<StampView>, id: Seq<char>, c: Classification, i: int)
    requires
        -1 <= i < s.len(),
        i >= 0 ==> s[i].device_id == id && s[i].classification == c,
        forall|k: int| i < k < s.len() ==> !(s[k].device_id == id && s[k].classification == c),
    ensures
        stamp_index(s, id, c) == i,
    decreases s.len(),
{
    if s.len() > 0 && i < s.len() - 1 {
        let t = s.drop_last();
        assert forall|k: int| i < k < t.len() implies !(t[k].device_id == id && t[k].classification
            == c) by {
            assert(t[k] == s[k]);
        }
        lemma_stamp_index_last(t, id, c, i);
    }
}

/// Restamping a key sets its stamp and leaves every other key's stamp alone.
proof fn lemma_restamped(
    s: Seq<StampView>,
    id: Seq<char>,
    c: Classification,
    now: u64,
    id2: Seq<char>,
    c2: Classification,
)
    ensures
        stamp_of(restamped(s, id, c, now), id2, c2) == if id2 == id && c2 == c {
            Some(now)
        } else {
            stamp_of(s, id2, c2)
        },
{
    let t = restamped(s, id, c, now);
    let i = stamp_index(s, id, c);
    lemma_stamp_index(s, id, c);
    lemma_stamp_index(s, id2, c2);
    let j = stamp_index(s, id2, c2);
    if id2 == id && c2 == c {
        if i >= 0 {
            assert forall|k: int| i < k < t.len() implies !(t[k].device_id == id
                && t[k].classification == c) by {
                assert(t[k] == s[k]);
            }
            lemma_stamp_index_last(t, id, c, i);
        } else {
            lemma_stamp_index_last(t, id, c, s.len() as int);
        }
    } else {
        if i >= 0 {
            // The changed slot keeps its key, which is not the one asked for.
            assert forall|k: int| j < k < t.len() implies !(t[k].device_id == id2
                && t[k].classification == c2) by {
                if k != i {
                    assert(t[k] == s[k]);
                }
            }
            if j >= 0 {
                assert(j != i);
                assert(t[j] == s[j]);
            }
            lemma_stamp_index_last(t, id2, c2, j);
        } else {
            assert forall|k: int| j < k < t.len() implies !(t[k].device_id == id2
                && t[k].classification == c2) by {
                if k < s.len() {
                    assert(t[k] == s[k]);
                }
            }
            if j >= 0 {
                assert(t[j] == s[j]);
            }
            lemma_stamp_index_last(t, id2, c2, j);
        }
    }
}

/// A delivery at `now` starts the window of the notification's device and
/// classification at `now`, leaves every other window alone, and ends the
/// log with a record of the notification marked as sent.
pub proof fn law_delivery_recorded(
    g: GateView,
    n: NotificationView,
    now: u64,
    id: Seq<char>,
    c: Classification,
)
    requires
        g.capacity > 0,
    ensures
        stamp_of(after_delivery(g, n, now).stamps, id, c) == if id == n.device().id && c
            == n.classification() {
            Some(now)
        } else {
            stamp_of(g.stamps, id, c)
        },
        after_delivery(g, n, now).log.len() > 0,
        after_delivery(g, n, now).log.last() == (RecordView {
            timestamp: now,
            notification: n,
            sent: true,
        }),
{
    lemma_restamped(g.stamps, n.device().id, n.classification(), now, id, c);
}

/// Two sends for the same device and classification: once the first was
/// delivered at `t1`, a second at `t2` (not before `t1`) is refused as
/// suppressed while less than the window has passed, and cleared again once
/// the window has passed.
pub proof fn law_suppression_window(
    g: GateView,
    first: NotificationView,
    second: NotificationView,
    t1: u64,
    t2: u64,
)
    requires
        admits(g, first, t1),
        second.device().id == first.device().id,
        second.classification() == first.classification(),
        t1 <= t2,
    ensures
        suppressed(after_delivery(g, first, t1), second, t2) <==> t2 - t1 < g.window_ms,
        admits(after_delivery(g, first, t1), second, t2) <==> t2 - t1 >= g.window_ms,
{
    lemma_restamped(
        g.stamps,
        first.device().id,
        first.classification(),
        t1,
        second.device().id,
        second.classification(),
    );
}

/// The human-interface icon of a device category.
pub open spec fn icon_of(t: DeviceType) -> Seq<char> {
    match t {
        DeviceType::Mouse => "input-mouse"@,
        DeviceType::Keyboard => "input-keyboard"@,
        DeviceType::Mobile => "phone"@,
        DeviceType::Buds => "audio-headphones"@,
        DeviceType::Headphones => "audio-headphones"@,
        DeviceType::Tablet => "computer-tablet"@,
        DeviceType::Unknown => "battery"@,
    }
}

/// What a desktop notification shows.
pub struct NotificationContent {
    pub summary: String,
    pub body: String,
    pub icon: &'static str,
    /// Shown with normal urgency (low-battery alerts) rather than low.
    pub urgent: bool,
}

/// The summary line of a notification.
pub open spec fn summary_of(n: NotificationView) -> Seq<char> {
    match n {
        NotificationView::LowBattery { device, .. } => "Low Battery: "@ + device.name,
        NotificationView::Connected(_) => "Device Connected"@,
        NotificationView::Disconnected(_) => "Device Disconnected"@,
    }
}

/// The body text of a notification.
pub open spec fn body_of(n: NotificationView) -> Seq<char> {
    match n {
        NotificationView::LowBattery { device, threshold } => "Battery level is "@ + match device.battery_level {
            Some(level) => decimal_of(level as nat) + "%"@,
            None => "Unknown"@,
        } + " (below "@ + decimal_of(threshold as nat) + "% threshold)"@,
        NotificationView::Connected(d) => d.name + " is now connected"@,
        NotificationView::Disconnected(d) => d.name + " has been disconnected"@,
    }
}

/// The notification manager and its audit log.
pub struct DesktopNotificationManager {
    enabled: bool,
    suppression: Duration,
    window_ms: u64,
    notification_log: Vec<NotificationRecord>,
    stamps: Vec<AlertStamp>,
    max_log_size: usize,
}

/// Largest number of records the audit log keeps.
pub const LOG_CAPACITY: usize = 1000;

/// Default suppression window, in seconds.
pub const DEFAULT_SUPPRESSION_SECONDS: u64 = 300;

impl View for DesktopNotificationManager {
    type V = GateView;

    closed spec fn view(&self) -> GateView {
        GateView {
            enabled: self.enabled,
            suppression: self.suppression,
            window_ms: self.window_ms,
            log: self.notification_log@.map_values(|r: NotificationRecord| r@),
            stamps: self.stamps@.map_values(|s: AlertStamp| s@),
            capacity: self.max_log_size as nat,
        }
    }
}

impl DesktopNotificationManager {
    /// The log holds at most its capacity.
    pub open spec fn wf(&self) -> bool {
        &&& self@.capacity == LOG_CAPACITY
        &&& self@.log.len() <= self@.capacity
    }

    /// An enabled gate with a five-minute window and an empty log.
    pub fn new() -> (r: DesktopNotificationManager)
        ensures
            r.wf(),
            r@.enabled,
            r@.suppression == span_of_secs(DEFAULT_SUPPRESSION_SECONDS),
            r@.window_ms == DEFAULT_SUPPRESSION_SECONDS * 1000,
            r@.log.len() == 0,
            r@.stamps.len() == 0,
            r@.capacity == LOG_CAPACITY,
    {
        let r = DesktopNotificationManager {
            enabled: true,
            suppression: crate::config::seconds(DEFAULT_SUPPRESSION_SECONDS),
            window_ms: DEFAULT_SUPPRESSION_SECONDS * 1000,
            notification_log: Vec::new(),
            stamps: Vec::new(),
            max_log_size: LOG_CAPACITY,
        };
        assert(r@.log =~= Seq::<RecordView>::empty());
        r
    }

    /// Whether notifications are switched on.
    pub fn is_enabled(&self) -> (r: bool)
        ensures
            r == self@.enabled,
    {
        self.enabled
    }

    /// Switches notifications on or off.
    pub fn set_enabled(&mut self, enabled: bool)
        requires
            old(self).wf(),
        ensures
            final(self).wf(),
            final(self)@ == (GateView { enabled, ..old(self)@ }),
    {
        self.enabled = enabled;
    }

    /// The suppression window.
    pub fn suppression_duration(&self) -> (r: Duration)
        ensures
            r == self@.suppression,
    {
        self.suppression
    }

    /// Sets the suppression window.
    pub fn set_suppression_duration(&mut self, duration: Duration)
        requires
            old(self).wf(),
        ensures
            final(self).wf(),
            final(self)@.suppression == duration,
            forall|s: u64|
                duration == span_of_secs(s) && s <= u64::MAX / 1000 ==> final(self)@.window_ms
                    == s * 1000,
            final(self)@ == (GateView {
                suppression: duration,
                window_ms: final(self)@.window_ms,
                ..old(self)@
            }),
    {
        self.window_ms = millis_in(duration);
        self.suppression = duration;
    }

    /// A copy of the audit log, oldest first.
    pub fn get_notification_log(&self) -> (r: Vec<NotificationRecord>)
        ensures
            r@.map_values(|x: NotificationRecord| x@) == self@.log,
    {
        let mut out: Vec<NotificationRecord> = Vec::new();
        let mut i: usize = 0;
        while i < self.notification_log.len()
            invariant
                i <= self@.log.len(),
                out@.len() == i,
                out@.map_values(|x: NotificationRecord| x@) == self@.log.subrange(0, i as int),
            decreases self@.log.len() - i,
        {
            let rec = self.notification_log[i].clone();
            out.push(rec);
            i = i + 1;
            assert(out@.map_values(|x: NotificationRecord| x@) =~= self@.log.subrange(
                0,
                i as int,
            ));
        }
        assert(self@.log.subrange(0, i as int) =~= self@.log);
        out
    }

    /// Empties the log and forgets every suppression window.
    pub fn clear_log(&mut self)
        requires
            old(self).wf(),
        ensures
            final(self).wf(),
            final(self)@ == (GateView {
                log: Seq::empty(),
                stamps: Seq::empty(),
                ..old(self)@
            }),
    {
        self.notification_log.clear();
        self.stamps.clear();
        assert(self@.log =~= Seq::<RecordView>::empty());
        assert(self@.stamps =~= Seq::<StampView>::empty());
    }

    /// Appends a record made at `now`, evicting the oldest beyond capacity.
    fn record(&mut self, notification: NotificationType, sent: bool, now: u64)
        requires
            old(self).wf(),
        ensures
            final(self).wf(),
            final(self)@ == (GateView {
                log: logged(
                    old(self)@.log,
                    RecordView { timestamp: now, notification: notification@, sent },
                    old(self)@.capacity,
                ),
                ..old(self)@
            }),
    {
        let ghost l0 = self@.log;
        let rec = NotificationRecord { timestamp: now, notification_type: notification, sent };
        self.notification_log.push(rec);
        let ghost l1 = l0.push(rec@);
        assert(self@.log =~= l1);
        if self.notification_log.len() > self.max_log_size {
            self.notification_log.remove(0);
            assert(self@.log =~= l1.subrange(1, l1.len() as int));
        }
    }

    /// Appends a record stamped with the current time.
    pub fn add_to_log(&mut self, notification: NotificationType, sent: bool)
        requires
            old(self).wf(),
        ensures
            final(self).wf(),
            final(self)@ == (GateView { log: final(self)@.log, ..old(self)@ }),
            exists|now: u64|
                #[trigger] logged(
                    old(self)@.log,
                    RecordView { timestamp: now, notification: notification@, sent },
                    old(self)@.capacity,
                ) == final(self)@.log,
    {
        let now = clock_millis();
        self.record(notification, sent, now);
    }

    /// Where the stamp for a device and classification is kept.
    fn find_stamp(&self, id: &String, c: Classification) -> (r: Option<usize>)
        ensures
            match r {
                Some(i) => i == stamp_index(self@.stamps, id@, c),
                None => stamp_index(self@.stamps, id@, c) == -1,
            },
    {
        let ghost s = self@.stamps;
        let mut j: usize = self.stamps.len();
        assert(s.subrange(0, j as int) =~= s);
        while j > 0
            invariant
                s == self@.stamps,
                j <= s.len(),
                stamp_index(s, id@, c) == stamp_index(s.subrange(0, j as int), id@, c),
            decreases j,
        {
            assert(s.subrange(0, j as int).drop_last() =~= s.subrange(0, j - 1));
            let st = &self.stamps[j - 1];
            assert(s[j - 1] == st@);
            if st.device_id == *id && st.classification == c {
                return Some(j - 1);
            }
            j = j - 1;
        }
        None
    }

    /// Whether a notification of this kind for this device was shown less
    /// than a window before `now`.
    pub fn is_suppressed(&self, notification: &NotificationType, now: u64) -> (r: bool)
        ensures
            r == suppressed(self@, notification@, now),
    {
        let device = notification.device();
        proof {
            lemma_stamp_index(self@.stamps, device@.id, notification@.classification());
        }
        match self.find_stamp(&device.id, notification.classification()) {
            Some(i) => {
                let at = self.stamps[i].at;
                assert(at == self@.stamps[i as int].at);
                at <= now && now - at < self.window_ms
            },
            None => false,
        }
    }

    /// Starts the suppression window of the notification's device and
    /// classification at `now`.
    fn update_suppression_state(&mut self, notification: &NotificationType, now: u64)
        requires
            old(self).wf(),
        ensures
            final(self).wf(),
            final(self)@ == (GateView {
                stamps: restamped(
                    old(self)@.stamps,
                    notification@.device().id,
                    notification@.classification(),
                    now,
                ),
                ..old(self)@
            }),
    {
        let ghost s = self@.stamps;
        let device = notification.device();
        let c = notification.classification();
        let stamp = AlertStamp { device_id: device.id.clone(), classification: c, at: now };
        proof {
            lemma_stamp_index(s, device@.id, c);
        }
        match self.find_stamp(&device.id, c) {
            Some(i) => {
                self.stamps.set(i, stamp);
                assert(self@.stamps =~= restamped(s, device@.id, c, now));
            },
            None => {
                self.stamps.push(stamp);
                assert(self@.stamps =~= restamped(s, device@.id, c, now));
            },
        }
    }

    /// The first step of sending at `now`: refuses with `Disabled` when
    /// notifications are off and with `Suppressed` inside the window, logging
    /// the notification as not sent; otherwise clears it for delivery and
    /// changes nothing.
    pub fn begin_send(&mut self, notification: &NotificationType, now: u64) -> (r: Result<
        (),
        NotificationError,
    >)
        requires
            old(self).wf(),
        ensures
            final(self).wf(),
            r is Ok <==> admits(old(self)@, notification@, now),
            r is Ok ==> final(self)@ == old(self)@,
            !old(self)@.enabled ==> (r matches Err(NotificationError::Disabled)) && final(self)@
                == after_refusal(old(self)@, notification@, now),
            old(self)@.enabled && suppressed(old(self)@, notification@, now) ==> (r matches Err(
                NotificationError::Suppressed,
            )) && final(self)@ == after_refusal(old(self)@, notification@, now),
    {
        if !self.enabled {
            self.record(notification.clone(), false, now);
            return Err(NotificationError::Disabled);
        }
        if self.is_suppressed(notification, now) {
            self.record(notification.clone(), false, now);
            return Err(NotificationError::Suppressed);
        }
        Ok(())
    }

    /// The second step of sending: what the external notifier did with a
    /// notification that `begin_send` cleared at `now`. On success the
    /// window restarts and the record is logged as sent; on failure it is
    /// logged as not sent and the notifier's message comes back.
    pub fn finish_send(
        &mut self,
        notification: NotificationType,
        now: u64,
        delivery: Result<(), String>,
    ) -> (r: Result<(), NotificationError>)
        requires
            old(self).wf(),
        ensures
            final(self).wf(),
            delivery is Ok ==> r is Ok && final(self)@ == after_delivery(
                old(self)@,
                notification@,
                now,
            ),
            delivery is Err ==> (r matches Err(NotificationError::SystemError(m)) && m@
                == delivery->Err_0@) && final(self)@ == after_refusal(
                old(self)@,
                notification@,
                now,
            ),
    {
        match delivery {
            Ok(()) => {
                self.update_suppression_state(&notification, now);
                self.record(notification, true, now);
                Ok(())
            },
            Err(m) => {
                self.record(notification, false, now);
                Err(NotificationError::SystemError(m))
            },
        }
    }

    /// The icon name for a device category.
    pub fn get_device_icon(&self, device_type: &DeviceType) -> (r: &'static str)
        ensures
            r@ == icon_of(*device_type),
    {
        match device_type {
            DeviceType::Mouse => "input-mouse",
            DeviceType::Keyboard => "input-keyboard",
            DeviceType::Mobile => "phone",
            DeviceType::Buds => "audio-headphones",
            DeviceType::Headphones => "audio-headphones",
            DeviceType::Tablet => "computer-tablet",
            DeviceType::Unknown => "battery",
        }
    }

    /// What the desktop notification for `notification` shows.
    pub fn notification_content(&self, notification: &NotificationType) -> (r:
        NotificationContent)
        ensures
            r.summary@ == summary_of(notification@),
            r.body@ == body_of(notification@),
            r.icon@ == icon_of(notification@.device().device_type),
            r.urgent == (notification@ is LowBattery),
    {
        match notification {
            NotificationType::LowBattery { device, threshold } => {
                let level = match device.battery_level {
                    Some(l) => {
                        let digits = decimal(l as u64);
                        join(digits.as_str(), "%")
                    },
                    None => "Unknown".to_owned(),
                };
                let b1 = join("Battery level is ", level.as_str());
                let b2 = join(b1.as_str(), " (below ");
                let t = decimal(*threshold as u64);
                let b3 = join(b2.as_str(), t.as_str());
                let body = join(b3.as_str(), "% threshold)");
                NotificationContent {
                    summary: join("Low Battery: ", device.name.as_str()),
                    body,
                    icon: self.get_device_icon(&device.device_type),
                    urgent: true,
                }
            },
            NotificationType::DeviceConnected(device) => NotificationContent {
                summary: "Device Connected".to_owned(),
                body: join(device.name.as_str(), " is now connected"),
                icon: self.get_device_icon(&device.device_type),
                urgent: false,
            },
            NotificationType::DeviceDisconnected(device) => NotificationContent {
                summary: "Device Disconnected".to_owned(),
                body: join(device.name.as_str(), " has been disconnected"),
                icon: self.get_device_icon(&device.device_type),
                urgent: false,
            },
        }
    }
}

} // verus!
