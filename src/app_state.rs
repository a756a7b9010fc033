use std::marker::PhantomData;

use vstd::prelude::*;

use crate::node::{Follower, Leader};
use crate::offset::Offset;
use crate::record::Record;
use crate::storage::{high_watermark, is_read_of, Storage, StorageError};

verus! {

/// A node: its role, fixed at start, and whether its profiling endpoints are on.
pub struct AppState<S, T> {
    pub profiling_enabled: bool,
    pub inner: AppStateInner<S, T>,
}

/// The role of a node.
pub enum AppStateInner<S, T> {
    Leader(Leader<S, T>),
    Follower(Follower<S>),
}

impl<S: Storage, T> AppState<S, T> {
    /// The node's storage engine.
    pub open spec fn store(&self) -> S {
        match self.inner {
            AppStateInner::Leader(l) => l.store(),
            AppStateInner::Follower(f) => f.store(),
        }
    }

    pub fn builder() -> AppStateBuilder {
        AppStateBuilder {  }
    }

    pub fn storage(&self) -> (r: &S)
        ensures
            *r == self.store(),
    {
        match &self.inner {
            AppStateInner::Leader(l) => l.storage(),
            AppStateInner::Follower(f) => f.storage(),
        }
    }

    /// The high-watermark of the node's log.
    pub fn max_offset(&self) -> (r: Option<Offset>)
        requires
            self.store().wf(),
        ensures
            r == high_watermark(self.store().log()),
    {
        self.storage().max_offset()
    }

    /// Appends one record to the node's own storage, whatever its role.
    pub fn put_record(&mut self, record: Record) -> (r: Result<Offset, StorageError>)
        requires
            old(self).store().wf(),
        ensures
            final(self).store().wf(),
            final(self).profiling_enabled == old(self).profiling_enabled,
            r is Ok <==> old(self).store().has_room_for(record@),
            r is Ok ==> r->Ok_0.0 == old(self).store().log().len() && final(self).store().log()
                == old(self).store().log().push(record@),
            r is Err ==> r == Err::<Offset, StorageError>(StorageError::CapacityExceeded)
                && final(self).store() == old(self).store(),
    {
        match &mut self.inner {
            AppStateInner::Leader(l) => l.put_record(record),
            AppStateInner::Follower(f) => f.put_record(record),
        }
    }

    /// Reads up to `max_records` records of the node's log from `offset`.
    pub fn get_records(&self, offset: Offset, max_records: usize) -> (r: Result<
        (Vec<Record>, Offset),
        StorageError,
    >)
        requires
            self.store().wf(),
        ensures
            r is Ok,
            is_read_of(r->Ok_0, self.store().log(), offset.0 as nat, max_records as nat),
    {
        self.storage().get_records(offset, max_records)
    }
}

/// Starts the description of a node.
pub struct AppStateBuilder {}

/// Marks a builder setting as given.
#[derive(Debug, Clone, Copy, Default)]
pub struct IsSet;

/// Marks a builder setting as not yet given.
#[derive(Debug, Clone, Copy, Default)]
pub struct Unset;

impl AppStateBuilder {
    pub fn leader(self) -> (r: LeaderBuilder<Unset, Unset>)
        ensures
            r.required() == 0,
            !r.profiling(),
            r.secret()@ == Seq::<char>::empty(),
    {
        LeaderBuilder {
            token: String::new(),
            storage: Unset,
            required_replicas: 0,
            profiling_enabled: false,
            marker: PhantomData,
        }
    }
}

/// The settings of a leader; the token and the storage must both be given before `build`.
pub struct LeaderBuilder<TokenStatus, S> {
    token: String,
    storage: S,
    required_replicas: usize,
    profiling_enabled: bool,
    marker: PhantomData<TokenStatus>,
}

impl<TokenStatus, S> LeaderBuilder<TokenStatus, S> {
    pub closed spec fn secret(&self) -> String {
        self.token
    }

    pub closed spec fn store(&self) -> S {
        self.storage
    }

    pub closed spec fn required(&self) -> usize {
        self.required_replicas
    }

    pub closed spec fn profiling(&self) -> bool {
        self.profiling_enabled
    }

    pub fn with_profiling_enabled(self, profiling_enabled: bool) -> (r: LeaderBuilder<
        TokenStatus,
        S,
    >)
        ensures
            r.profiling() == profiling_enabled,
            r.required() == self.required(),
            r.secret() == self.secret(),
            r.store() == self.store(),
    {
        LeaderBuilder { profiling_enabled, ..self }
    }

    pub fn with_required_replicas(self, required_replicas: usize) -> (r: LeaderBuilder<
        TokenStatus,
        S,
    >)
        ensures
            r.required() == required_replicas,
            r.profiling() == self.profiling(),
            r.secret() == self.secret(),
            r.store() == self.store(),
    {
        LeaderBuilder { required_replicas, ..self }
    }
}

impl<S> LeaderBuilder<Unset, S> {
    pub fn with_token(self, token: String) -> (r: LeaderBuilder<IsSet, S>)
        ensures
            r.secret() == token,
            r.required() == self.required(),
            r.profiling() == self.profiling(),
            r.store() == self.store(),
    {
        LeaderBuilder {
            token,
            storage: self.storage,
            required_replicas: self.required_replicas,
            profiling_enabled: self.profiling_enabled,
            marker: PhantomData,
        }
    }
}

impl<TokenStatus> LeaderBuilder<TokenStatus, Unset> {
    pub fn with_storage<S: Storage>(self, storage: S) -> (r: LeaderBuilder<TokenStatus, S>)
        ensures
            r.store() == storage,
            r.secret() == self.secret(),
            r.required() == self.required(),
            r.profiling() == self.profiling(),
    {
        LeaderBuilder {
            token: self.token,
            storage,
            required_replicas: self.required_replicas,
            profiling_enabled: self.profiling_enabled,
            marker: PhantomData,
        }
    }
}

impl<S: Storage> LeaderBuilder<IsSet, S> {
    /// A leader node with these settings and no follower known yet.
    pub fn build<T>(self) -> (r: AppState<S, T>)
        requires
            self.store().wf(),
        ensures
            r.profiling_enabled == self.profiling(),
            r.inner is Leader,
            ({
                let l = r.inner->Leader_0;
                &&& l.wf()
                &&& l.store() == self.store()
                &&& l.tracker().required() == self.required()
                &&& l.tracker().pending().len() == 0
                &&& l.tracker().acks().len() == 0
            }),
    {
        AppState {
            profiling_enabled: self.profiling_enabled,
            inner: AppStateInner::Leader(
                Leader::new(self.token, self.storage, self.required_replicas),
            ),
        }
    }
}

} // verus!
