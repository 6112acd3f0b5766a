//! The normalized alert record and the match-result sink that collects
//! alerts from rule execution. The sink is injectable state; callers that
//! share it across tasks guard it with their own mutual exclusion.

use vstd::prelude::*;

verus! {

/// One emitted, user-facing detection result.
pub struct Alert {
    /// Path of the event file the detection came from.
    pub evtx_filepath: String,
    /// Identifier of the rule that matched.
    pub rulepath: String,
    /// Record timestamp, or the window start for aggregated alerts.
    pub detected_time: u64,
    /// The rule's severity label.
    pub level: String,
    /// Host taken from the record, or "-" for aggregated alerts.
    pub computer: String,
    /// Event identifier from the record, or "-" if absent or aggregated.
    pub eventid: String,
    /// The rule's title.
    pub title: String,
    /// The message body.
    pub detail: String,
}

/// An alert as plain values: each text field by its character sequence.
pub struct AlertView {
    pub evtx_filepath: Seq<char>,
    pub rulepath: Seq<char>,
    pub detected_time: u64,
    pub level: Seq<char>,
    pub computer: Seq<char>,
    pub eventid: Seq<char>,
    pub title: Seq<char>,
    pub detail: Seq<char>,
}

impl View for Alert {
    type V = AlertView;

    open spec fn view(&self) -> AlertView {
        AlertView {
            evtx_filepath: self.evtx_filepath@,
            rulepath: self.rulepath@,
            detected_time: self.detected_time,
            level: self.level@,
            computer: self.computer@,
            eventid: self.eventid@,
            title: self.title@,
            detail: self.detail@,
        }
    }
}

/// The stored alerts as plain values.
pub open spec fn alert_views(alerts: Seq<Alert>) -> Seq<AlertView> {
    alerts.map_values(|a: Alert| a@)
}

/// Every emitted alert carries a non-empty rule identifier and severity.
pub open spec fn alert_wf(a: Alert) -> bool {
    a.rulepath@.len() > 0 && a.level@.len() > 0
}

/// The process-wide store of emitted alerts. Insertion is the only mutation.
pub struct MessageSink {
    pub alerts: Vec<Alert>,
}

impl MessageSink {
    /// All stored alerts are well formed.
    pub open spec fn wf(&self) -> bool {
        forall|i: int| 0 <= i < self.alerts@.len() ==> alert_wf(#[trigger] self.alerts@[i])
    }

    pub fn new() -> (r: MessageSink)
        ensures
            r.alerts@ =~= Seq::<Alert>::empty(),
            r.wf(),
    {
        MessageSink { alerts: Vec::new() }
    }

    /// Append one alert to the store.
    pub fn insert_message(
        &mut self,
        evtx_filepath: String,
        rulepath: String,
        detected_time: u64,
        level: String,
        computer: String,
        eventid: String,
        title: String,
        detail: String,
    )
        requires
            rulepath@.len() > 0,
            level@.len() > 0,
            old(self).wf(),
        ensures
            final(self).alerts@ == old(self).alerts@.push(
                (Alert {
                    evtx_filepath,
                    rulepath,
                    detected_time,
                    level,
                    computer,
                    eventid,
                    title,
                    detail,
                }),
            ),
            final(self).wf(),
    {
        let a = Alert {
            evtx_filepath,
            rulepath,
            detected_time,
            level,
            computer,
            eventid,
            title,
            detail,
        };
        self.alerts.push(a);
    }
}

} // verus!
