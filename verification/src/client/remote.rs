//! The state of a remote client.

use crate::client::connection::{
    base_url, base_url_model, first_probe, pair_body, probe, ConnectAction,
};
use crate::client::session::{StreamTable, StreamsModel};
use crate::client::types::{ConnectionStatus, RemoteConnectionConfig};
use crate::json::Json;
use crate::text::concat;
use vstd::prelude::*;

verus! {

broadcast use vstd::string::group_string_axioms;

/// What a client knows of its connection.
pub struct RemoteClient {
    config: RemoteConnectionConfig,
    status: ConnectionStatus,
    remote_state: Option<Json>,
    streams: StreamTable,
    /// The latest token, which reconnecting picks up.
    shared_token: Option<String>,
}

/// A [`RemoteClient`] as plain values.
pub struct ClientModel {
    pub config: RemoteConnectionConfig,
    pub status: ConnectionStatus,
    pub remote_state: Option<Json>,
    pub streams: StreamsModel,
    pub shared_token: Option<Seq<char>>,
}

/// A request to pair.
#[derive(Debug, PartialEq, Eq)]
pub struct PairRequest {
    pub url: String,
    pub body: Json,
}

fn copy_text(text: &Option<String>) -> (r: Option<String>)
    ensures
        r.deep_view() == text.deep_view(),
{
    match text {
        Some(t) => Some(t.clone()),
        None => None,
    }
}

impl RemoteClient {
    pub closed spec fn wf(&self) -> bool {
        self.streams.wf()
    }

    pub closed spec fn view(&self) -> ClientModel {
        ClientModel {
            config: self.config,
            status: self.status,
            remote_state: self.remote_state,
            streams: self.streams.view(),
            shared_token: self.shared_token.deep_view(),
        }
    }

    /// A client that is not connected.
    pub fn new(config: RemoteConnectionConfig) -> (r: RemoteClient)
        ensures
            r.wf(),
            r.view().config == config,
            r.view().status == ConnectionStatus::Disconnected,
            r.view().remote_state is None,
            r.view().streams == StreamsModel::empty(),
            r.view().shared_token == config.saved_token.deep_view(),
    {
        let shared_token: Option<String> = copy_text(&config.saved_token);
        RemoteClient {
            config,
            status: ConnectionStatus::Disconnected,
            remote_state: None,
            streams: StreamTable::new(),
            shared_token,
        }
    }

    /// Where to connect.
    pub fn config(&self) -> (r: &RemoteConnectionConfig)
        ensures
            *r == self.view().config,
    {
        &self.config
    }

    /// Where to connect, to be changed.
    pub fn config_mut(&mut self) -> (r: &mut RemoteConnectionConfig)
        ensures
            *r == old(self).view().config,
            final(self).wf() == old(self).wf(),
            final(self).view() == (ClientModel { config: *final(r), ..old(self).view() }),
    {
        &mut self.config
    }

    /// The status of the connection.
    pub fn status(&self) -> (r: &ConnectionStatus)
        ensures
            *r == self.view().status,
    {
        &self.status
    }

    /// The status of the connection, to be changed.
    pub fn status_mut(&mut self) -> (r: &mut ConnectionStatus)
        ensures
            *r == old(self).view().status,
            final(self).wf() == old(self).wf(),
            final(self).view() == (ClientModel { status: *final(r), ..old(self).view() }),
    {
        &mut self.status
    }

    /// Changes the status.
    pub fn set_status(&mut self, status: ConnectionStatus)
        ensures
            final(self).wf() == old(self).wf(),
            final(self).view() == (ClientModel { status, ..old(self).view() }),
    {
        self.status = status;
    }

    /// The last state of the server.
    pub fn remote_state(&self) -> (r: Option<&Json>)
        ensures
            match r {
                Some(state) => self.view().remote_state == Some(*state),
                None => self.view().remote_state is None,
            },
    {
        match &self.remote_state {
            Some(state) => Some(state),
            None => None,
        }
    }

    /// The last state of the server, to be changed.
    pub fn remote_state_mut(&mut self) -> (r: Option<&mut Json>)
        ensures
            final(self).wf() == old(self).wf(),
            match r {
                Some(state) => old(self).view().remote_state == Some(*state) && final(self).view()
                    == (ClientModel { remote_state: Some(*final(state)), ..old(self).view() }),
                None => old(self).view().remote_state is None && final(self).view() == old(
                    self,
                ).view(),
            },
    {
        match &mut self.remote_state {
            Some(state) => Some(state),
            None => None,
        }
    }

    /// Changes the last state of the server.
    pub fn set_remote_state(&mut self, state: Option<Json>)
        ensures
            final(self).wf() == old(self).wf(),
            final(self).view() == (ClientModel { remote_state: state, ..old(self).view() }),
    {
        self.remote_state = state;
    }

    /// The latest token.
    pub fn shared_token(&self) -> (r: &Option<String>)
        ensures
            r.deep_view() == self.view().shared_token,
    {
        &self.shared_token
    }

    /// Changes the latest token.
    pub fn update_shared_token(&mut self, token: &str)
        ensures
            final(self).wf() == old(self).wf(),
            final(self).view() == (ClientModel { shared_token: Some(token@), ..old(self).view() }),
    {
        self.shared_token = Some(token.to_owned());
    }

    /// Takes in the streams of a subscription.
    pub fn update_stream_mappings(&mut self, mappings: &Vec<(String, u32)>)
        requires
            old(self).wf(),
        ensures
            final(self).wf(),
            final(self).view() == (ClientModel {
                streams: old(self).view().streams.with_all(mappings.deep_view()),
                ..old(self).view()
            }),
    {
        self.streams.record(mappings);
    }

    /// The streams.
    pub fn streams(&self) -> (r: &StreamTable)
        ensures
            r.wf() == self.wf(),
            r.view() == self.view().streams,
    {
        &self.streams
    }

    /// Starts connecting: the saved token becomes the latest one, and the first
    /// probe is due.
    pub fn connect(&mut self) -> (r: ConnectAction)
        ensures
            final(self).wf() == old(self).wf(),
            final(self).view() == (ClientModel {
                status: ConnectionStatus::Connecting,
                shared_token: old(self).view().config.saved_token.deep_view(),
                ..old(self).view()
            }),
            r.deep_view() == probe(old(self).view().config.deep_view(), true),
    {
        self.status = ConnectionStatus::Connecting;
        self.shared_token = copy_text(&self.config.saved_token);
        first_probe(&self.config)
    }

    /// Starts pairing with a code.
    pub fn pair(&mut self, code: &str) -> (r: PairRequest)
        ensures
            final(self).wf() == old(self).wf(),
            final(self).view() == (ClientModel {
                status: ConnectionStatus::Connecting,
                ..old(self).view()
            }),
            r.url@ == ({
                let config = old(self).view().config;
                base_url_model(config.tls, config.host@, config.port) + "/v1/pair"@
            }),
            r.body matches Json::Object(members) && members@.len() == 1 && members@[0].0@
                == "code"@ && members@[0].1.text() == Some(code@),
    {
        self.status = ConnectionStatus::Connecting;
        let base: String = base_url(self.config.tls, self.config.host.as_str(), self.config.port);
        PairRequest { url: concat(base.as_str(), "/v1/pair"), body: pair_body(code) }
    }

    /// Ends the connection and forgets the server's state and streams.
    pub fn disconnect(&mut self)
        ensures
            final(self).wf(),
            final(self).view() == (ClientModel {
                status: ConnectionStatus::Disconnected,
                remote_state: None,
                streams: StreamsModel::empty(),
                ..old(self).view()
            }),
    {
        self.streams.clear();
        self.remote_state = None;
        self.status = ConnectionStatus::Disconnected;
    }
}

} // verus!
