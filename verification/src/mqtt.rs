//! The decisions of the MQTT recorder loop: how to connect, and what to do
//! on each event from the broker.

use vstd::prelude::*;
use crate::config::MqttConfig;

verus! {

/// How the connection is secured.
#[derive(Clone, Debug, PartialEq)]
pub enum TlsChoice {
    /// Plain TCP.
    Plain,
    /// TLS trusting only the CA certificate in this file.
    CaFile(String),
    /// TLS trusting the system's root certificates.
    SystemRoots,
}

/// Everything needed to open the broker connection.
#[derive(Clone, Debug, PartialEq)]
pub struct ConnectPlan {
    pub client_id: String,
    pub host: String,
    pub port: u16,
    pub keep_alive_secs: u64,
    pub clean_session: bool,
    pub max_incoming_packet: usize,
    pub max_outgoing_packet: usize,
    /// User name and password, when a user name is configured.
    pub credentials: Option<(String, String)>,
    pub tls: TlsChoice,
    /// The topic filter to subscribe to, at least once delivery.
    pub topic: String,
    /// Capacity of the request queue between client and event loop.
    pub queue_capacity: usize,
}

/// The connection that a configuration asks for: a persistent session with
/// a 30 s keep-alive and packets of up to 1 MiB each way; the password
/// defaults to empty when only a user name is set; TLS from the CA file
/// when one is named, from the system's roots otherwise.
pub fn connect_plan(cfg: &MqttConfig) -> (p: ConnectPlan)
    ensures
        p.client_id@ == cfg.client_id@,
        p.host@ == cfg.host@,
        p.port == cfg.port,
        p.keep_alive_secs == 30,
        !p.clean_session,
        p.max_incoming_packet == 1048576,
        p.max_outgoing_packet == 1048576,
        p.queue_capacity == 256,
        p.topic@ == cfg.topic@,
        match cfg.username {
            None => p.credentials is None,
            Some(u) => p.credentials matches Some((pu, pw)) && pu@ == u@ && pw@ == (match cfg.password {
                Some(w) => w@,
                None => Seq::<char>::empty(),
            }),
        },
        !cfg.tls ==> p.tls is Plain,
        cfg.tls ==> match cfg.ca_file {
            Some(f) => p.tls matches TlsChoice::CaFile(pf) && pf@ == f@,
            None => p.tls is SystemRoots,
        },
{
    let credentials = match &cfg.username {
        None => None,
        Some(u) => {
            let pass = match &cfg.password {
                Some(w) => w.clone(),
                None => String::new(),
            };
            Some((u.clone(), pass))
        },
    };
    let tls = if !cfg.tls {
        TlsChoice::Plain
    } else {
        match &cfg.ca_file {
            Some(f) => TlsChoice::CaFile(f.clone()),
            None => TlsChoice::SystemRoots,
        }
    };
    ConnectPlan {
        client_id: cfg.client_id.clone(),
        host: cfg.host.clone(),
        port: cfg.port,
        keep_alive_secs: 30,
        clean_session: false,
        max_incoming_packet: 1048576,
        max_outgoing_packet: 1048576,
        credentials,
        tls,
        topic: cfg.topic.clone(),
        queue_capacity: 256,
    }
}

/// What the broker connection reports.
#[derive(Clone, Debug, PartialEq)]
pub enum BrokerEvent {
    /// A message was published on `topic`.
    Publish { topic: String, payload: String },
    /// The broker accepted the connection.
    ConnAck,
    /// The broker closed the connection.
    Disconnect,
    /// Anything else the event loop reports.
    Other,
    /// The connection failed.
    ConnectionError,
}

/// What the recorder does next.
#[derive(Clone, Debug, PartialEq)]
pub enum LoopAction {
    /// Store the message.
    Handle { topic: String, payload: String },
    /// Subscribe again to the configured topic (a new session may have
    /// lost the subscription).
    Resubscribe,
    /// Nothing but note the event.
    Note,
    /// Wait this many seconds before polling again, then reconnect.
    Backoff(u64),
}

/// The recorder's answer to one broker event.
pub fn on_event(e: BrokerEvent) -> (a: LoopAction)
    ensures
        match e {
            BrokerEvent::Publish { topic, payload } => a matches LoopAction::Handle { topic: t, payload: p }
                && t@ == topic@ && p@ == payload@,
            BrokerEvent::ConnAck => a is Resubscribe,
            BrokerEvent::Disconnect => a is Note,
            BrokerEvent::Other => a is Note,
            BrokerEvent::ConnectionError => a matches LoopAction::Backoff(s) && s == 2,
        },
{
    match e {
        BrokerEvent::Publish { topic, payload } => LoopAction::Handle { topic, payload },
        BrokerEvent::ConnAck => LoopAction::Resubscribe,
        BrokerEvent::Disconnect => LoopAction::Note,
        BrokerEvent::Other => LoopAction::Note,
        BrokerEvent::ConnectionError => LoopAction::Backoff(2),
    }
}

} // verus!
