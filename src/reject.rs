use vstd::prelude::*;

verus! {

/// The step of a Reject-Delivery job that failed; the caller attaches the cause.
#[derive(Debug, Clone, Copy, PartialEq, Eq)]
pub enum JobError {
    /// Looking up the follow record failed.
    Lookup,
    /// The outbound reject delivery failed; the record was kept.
    Delivery,
    /// Deleting the record after a confirmed delivery failed.
    Deletion,
}

/// A job that rejects the follow request `follow_id`: deliver a reject
/// action for the record, then delete the record.
#[derive(Debug, Clone, Copy, PartialEq, Eq)]
pub struct DeliverReject {
    pub follow_id: u128,
}

/// Where a running Reject-Delivery job stands.
#[derive(Debug, Clone, Copy, PartialEq, Eq)]
pub enum RejectStage {
    LookingUp,
    Delivering,
    Deleting,
    Finished(Result<(), JobError>),
}

/// What the environment reports back after carrying out an action.
#[derive(Debug, Clone, Copy, PartialEq, Eq)]
pub enum RejectEvent {
    RecordFound,
    RecordMissing,
    LookupFailed,
    Delivered,
    DeliveryFailed,
    Deleted,
    DeletionFailed,
}

/// What the environment has to do next for a running job.
#[derive(Debug, Clone, Copy, PartialEq, Eq)]
pub enum RejectAction {
    /// Look up the follow record.
    LookUp { follow_id: u128 },
    /// Deliver a reject action carrying the record that was found.
    Deliver { follow_id: u128 },
    /// Delete the record.
    Delete { follow_id: u128 },
    /// The job is over, with this result.
    Finish(Result<(), JobError>),
}

/// One execution of a [`DeliverReject`] job.
#[derive(Debug, Clone, Copy, PartialEq, Eq)]
pub struct RejectRun {
    pub follow_id: u128,
    pub stage: RejectStage,
}

impl RejectStage {
    /// The stage after `event`; an event that does not answer the pending
    /// action leaves the stage as it is.
    pub open spec fn next(self, event: RejectEvent) -> RejectStage {
        match (self, event) {
            (RejectStage::LookingUp, RejectEvent::RecordFound) => RejectStage::Delivering,
            (RejectStage::LookingUp, RejectEvent::RecordMissing) => RejectStage::Finished(Ok(())),
            (RejectStage::LookingUp, RejectEvent::LookupFailed) => RejectStage::Finished(
                Err(JobError::Lookup),
            ),
            (RejectStage::Delivering, RejectEvent::Delivered) => RejectStage::Deleting,
            (RejectStage::Delivering, RejectEvent::DeliveryFailed) => RejectStage::Finished(
                Err(JobError::Delivery),
            ),
            (RejectStage::Deleting, RejectEvent::Deleted) => RejectStage::Finished(Ok(())),
            (RejectStage::Deleting, RejectEvent::DeletionFailed) => RejectStage::Finished(
                Err(JobError::Deletion),
            ),
            _ => self,
        }
    }
}

impl RejectRun {
    pub open spec fn next(self, event: RejectEvent) -> RejectRun {
        RejectRun { follow_id: self.follow_id, stage: self.stage.next(event) }
    }

    /// The action that the stage waits on.
    pub open spec fn pending(self) -> RejectAction {
        match self.stage {
            RejectStage::LookingUp => RejectAction::LookUp { follow_id: self.follow_id },
            RejectStage::Delivering => RejectAction::Deliver { follow_id: self.follow_id },
            RejectStage::Deleting => RejectAction::Delete { follow_id: self.follow_id },
            RejectStage::Finished(res) => RejectAction::Finish(res),
        }
    }

    /// The run after the events `events`, in order.
    pub open spec fn after(self, events: Seq<RejectEvent>) -> RejectRun
        decreases events.len(),
    {
        if events.len() == 0 {
            self
        } else {
            self.after(events.drop_last()).next(events.last())
        }
    }

    /// The action to carry out now.
    pub fn pending_action(&self) -> (action: RejectAction)
        ensures
            action == self.pending(),
    {
        match self.stage {
            RejectStage::LookingUp => RejectAction::LookUp { follow_id: self.follow_id },
            RejectStage::Delivering => RejectAction::Deliver { follow_id: self.follow_id },
            RejectStage::Deleting => RejectAction::Delete { follow_id: self.follow_id },
            RejectStage::Finished(res) => RejectAction::Finish(res),
        }
    }

    /// Take in what the environment reports and return the next action.
    pub fn step(&mut self, event: RejectEvent) -> (action: RejectAction)
        ensures
            *final(self) == old(self).next(event),
            action == final(self).pending(),
    {
        let stage = match (self.stage, event) {
            (RejectStage::LookingUp, RejectEvent::RecordFound) => RejectStage::Delivering,
            (RejectStage::LookingUp, RejectEvent::RecordMissing) => RejectStage::Finished(Ok(())),
            (RejectStage::LookingUp, RejectEvent::LookupFailed) => RejectStage::Finished(
                Err(JobError::Lookup),
            ),
            (RejectStage::Delivering, RejectEvent::Delivered) => RejectStage::Deleting,
            (RejectStage::Delivering, RejectEvent::DeliveryFailed) => RejectStage::Finished(
                Err(JobError::Delivery),
            ),
            (RejectStage::Deleting, RejectEvent::Deleted) => RejectStage::Finished(Ok(())),
            (RejectStage::Deleting, RejectEvent::DeletionFailed) => RejectStage::Finished(
                Err(JobError::Deletion),
            ),
            (stage, _) => stage,
        };
        self.stage = stage;
        self.pending_action()
    }
}

impl DeliverReject {
    /// A fresh run of this job, which starts by looking up the record.
    pub open spec fn start_spec(self) -> RejectRun {
        RejectRun { follow_id: self.follow_id, stage: RejectStage::LookingUp }
    }

    /// Start a run of this job; the first action is the lookup of the record.
    pub fn start(&self) -> (r: (RejectRun, RejectAction))
        ensures
            r.0 == self.start_spec(),
            r.1 == (RejectAction::LookUp { follow_id: self.follow_id }),
    {
        (
            RejectRun { follow_id: self.follow_id, stage: RejectStage::LookingUp },
            RejectAction::LookUp { follow_id: self.follow_id },
        )
    }
}

/// A finished run stays finished, with the same result, whatever is reported
/// to it afterwards.
pub proof fn lemma_finished_is_final(run: RejectRun, events: Seq<RejectEvent>)
    requires
        run.stage is Finished,
    ensures
        run.after(events) == run,
    decreases events.len(),
{
    if events.len() > 0 {
        lemma_finished_is_final(run, events.drop_last());
    }
}

/// A run of a Reject-Delivery job asks for the deletion of the record only
/// once a delivery that it asked for has been reported successful: whatever
/// the events, when the pending action is a deletion, some earlier event
/// confirmed the delivery that was pending at that point.
pub proof fn lemma_delete_only_after_delivery(job: DeliverReject, events: Seq<RejectEvent>)
    ensures
        job.start_spec().after(events).pending() is Delete ==> exists|j: int|
            0 <= j < events.len() && events[j] == RejectEvent::Delivered
                && #[trigger] job.start_spec().after(events.take(j)).pending() is Deliver,
    decreases events.len(),
{
    let s = job.start_spec();
    if events.len() > 0 {
        let prev = events.drop_last();
        lemma_delete_only_after_delivery(job, prev);
        if s.after(events).pending() is Delete {
            if s.after(prev).stage is Deleting {
                let j = choose|j: int|
                    0 <= j < prev.len() && prev[j] == RejectEvent::Delivered
                        && #[trigger] s.after(prev.take(j)).pending() is Deliver;
                assert(prev.take(j) =~= events.take(j));
                assert(events[j] == RejectEvent::Delivered);
            } else {
                let j = prev.len() as int;
                assert(events.take(j) =~= prev);
                assert(s.after(events.take(j)).pending() is Deliver);
            }
        }
    }
}

/// A job whose lookup finds no record is a no-op: the run ends in success,
/// and at no point is a delivery or a deletion pending.
pub proof fn lemma_missing_record_is_noop(job: DeliverReject, events: Seq<RejectEvent>)
    requires
        events.len() > 0,
        events[0] == RejectEvent::RecordMissing,
    ensures
        job.start_spec().after(events).pending() == RejectAction::Finish(Ok(())),
        forall|k: int|
            0 <= k <= events.len() ==> !(#[trigger] job.start_spec().after(
                events.take(k),
            ).pending() is Deliver) && !(job.start_spec().after(events.take(k)).pending() is Delete),
{
    let s = job.start_spec();
    let first = s.next(RejectEvent::RecordMissing);
    assert(s.after(seq![RejectEvent::RecordMissing]) == first) by {
        assert(seq![RejectEvent::RecordMissing].drop_last() =~= Seq::<RejectEvent>::empty());
        assert(s.after(Seq::<RejectEvent>::empty()) == s);
    }
    lemma_after_split(s, seq![RejectEvent::RecordMissing], events.skip(1));
    assert(seq![RejectEvent::RecordMissing] + events.skip(1) =~= events);
    lemma_finished_is_final(first, events.skip(1));
    assert forall|k: int| 0 <= k <= events.len() implies !(#[trigger] s.after(
        events.take(k),
    ).pending() is Deliver) && !(s.after(events.take(k)).pending() is Delete) by {
        if k > 0 {
            lemma_after_split(s, seq![RejectEvent::RecordMissing], events.take(k).skip(1));
            assert(seq![RejectEvent::RecordMissing] + events.take(k).skip(1) =~= events.take(k));
            lemma_finished_is_final(first, events.take(k).skip(1));
        }
    }
}

/// Running the events `a` and then `b` is running `a + b`.
pub proof fn lemma_after_split(run: RejectRun, a: Seq<RejectEvent>, b: Seq<RejectEvent>)
    ensures
        run.after(a + b) == run.after(a).after(b),
    decreases b.len(),
{
    if b.len() == 0 {
        assert(a + b =~= a);
    } else {
        lemma_after_split(run, a, b.drop_last());
        assert((a + b).drop_last() =~= a + b.drop_last());
        assert((a + b).last() == b.last());
    }
}

/// Redelivery of a Reject-Delivery job is harmless: a first run that finds
/// the record, delivers and deletes it ends in success; a second run of the
/// same job that finds the record gone also ends in success, without asking
/// for a second delivery or deletion.
pub proof fn lemma_redelivery_is_idempotent(job: DeliverReject, second: Seq<RejectEvent>)
    requires
        second.len() > 0,
        second[0] == RejectEvent::RecordMissing,
    ensures
        job.start_spec().after(
            seq![RejectEvent::RecordFound, RejectEvent::Delivered, RejectEvent::Deleted],
        ).pending() == RejectAction::Finish(Ok(())),
        job.start_spec().after(second).pending() == RejectAction::Finish(Ok(())),
        forall|k: int|
            0 <= k <= second.len() ==> !(#[trigger] job.start_spec().after(
                second.take(k),
            ).pending() is Deliver) && !(job.start_spec().after(second.take(k)).pending() is Delete),
{
    let s = job.start_spec();
    let first = seq![RejectEvent::RecordFound, RejectEvent::Delivered, RejectEvent::Deleted];
    assert(first.drop_last() =~= seq![RejectEvent::RecordFound, RejectEvent::Delivered]);
    assert(first.drop_last().drop_last() =~= seq![RejectEvent::RecordFound]);
    assert(first.drop_last().drop_last().drop_last() =~= Seq::<RejectEvent>::empty());
    assert(s.after(Seq::<RejectEvent>::empty()) == s);
    assert(s.after(first.drop_last().drop_last()).stage is Delivering);
    assert(s.after(first.drop_last()).stage is Deleting);
    lemma_missing_record_is_noop(job, second);
}

} // verus!
