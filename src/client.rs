//! The HTTP client's configuration, and the options it hands the host.

use vstd::prelude::*;
use crate::time::Duration;

verus! {

/// The timeouts a request may carry.
#[derive(Clone, Copy, Debug, PartialEq, Eq, Structural)]
pub struct RequestOptions {
    pub connect_timeout: Option<Duration>,
    pub first_byte_timeout: Option<Duration>,
    pub between_bytes_timeout: Option<Duration>,
}

impl RequestOptions {
    /// Options with no timeout set.
    pub fn new() -> (r: RequestOptions)
        ensures
            r.connect_timeout.is_none(),
            r.first_byte_timeout.is_none(),
            r.between_bytes_timeout.is_none(),
    {
        RequestOptions { connect_timeout: None, first_byte_timeout: None, between_bytes_timeout: None }
    }
}

/// Which timeout a setting is for.
#[derive(Clone, Copy, Debug, PartialEq, Eq, Structural)]
pub enum TimeoutKind {
    Connect,
    FirstByte,
    BetweenBytes,
}

impl TimeoutKind {
    /// The error text for a host that does not take this timeout.
    pub fn unsupported_message(&self) -> (r: &'static str)
        ensures
            r@ == match *self {
                TimeoutKind::Connect => "wasi-http implementation does not support connect timeout option"@,
                TimeoutKind::FirstByte => "wasi-http implementation does not support first byte timeout option"@,
                TimeoutKind::BetweenBytes => "wasi-http implementation does not support between byte timeout option"@,
            },
    {
        match self {
            TimeoutKind::Connect => "wasi-http implementation does not support connect timeout option",
            TimeoutKind::FirstByte => "wasi-http implementation does not support first byte timeout option",
            TimeoutKind::BetweenBytes => "wasi-http implementation does not support between byte timeout option",
        }
    }
}

/// One timeout to hand the host, in nanoseconds.
#[derive(Clone, Copy, Debug, PartialEq, Eq, Structural)]
pub struct TimeoutSetting {
    pub kind: TimeoutKind,
    pub nanos: u64,
}

pub open spec fn setting_of(kind: TimeoutKind, t: Option<Duration>) -> Seq<TimeoutSetting> {
    match t {
        Some(d) => seq![TimeoutSetting { kind, nanos: d.nanos }],
        None => Seq::empty(),
    }
}

/// The settings for the options: connect, first byte, then between bytes,
/// each only where it is set.
pub open spec fn settings_spec(o: RequestOptions) -> Seq<TimeoutSetting> {
    setting_of(TimeoutKind::Connect, o.connect_timeout) + setting_of(
        TimeoutKind::FirstByte,
        o.first_byte_timeout,
    ) + setting_of(TimeoutKind::BetweenBytes, o.between_bytes_timeout)
}

impl RequestOptions {
    /// The timeouts to hand the host, in the order it is asked to take
    /// them; the first it refuses ends the request with its
    /// `unsupported_message`.
    pub fn settings(&self) -> (r: Vec<TimeoutSetting>)
        ensures
            r@ == settings_spec(*self),
    {
        let mut r: Vec<TimeoutSetting> = Vec::new();
        if let Some(d) = self.connect_timeout {
            r.push(TimeoutSetting { kind: TimeoutKind::Connect, nanos: d.nanos });
        }
        let ghost a = r@;
        assert(a =~= setting_of(TimeoutKind::Connect, self.connect_timeout));
        if let Some(d) = self.first_byte_timeout {
            r.push(TimeoutSetting { kind: TimeoutKind::FirstByte, nanos: d.nanos });
        }
        let ghost b = r@;
        assert(b =~= a + setting_of(TimeoutKind::FirstByte, self.first_byte_timeout));
        if let Some(d) = self.between_bytes_timeout {
            r.push(TimeoutSetting { kind: TimeoutKind::BetweenBytes, nanos: d.nanos });
        }
        assert(r@ =~= b + setting_of(TimeoutKind::BetweenBytes, self.between_bytes_timeout));
        r
    }
}

/// An HTTP client: the options its requests carry, if any were set.
#[derive(Clone, Copy, Debug, PartialEq, Eq, Structural)]
pub struct Client {
    pub options: Option<RequestOptions>,
}

impl Client {
    /// A client whose requests carry no options.
    pub fn new() -> (r: Client)
        ensures
            r.options.is_none(),
    {
        Client { options: None }
    }

    /// The options, made empty first where none were set.
    fn options_mut(&mut self) -> (r: RequestOptions)
        ensures
            old(self).options.is_some() ==> r == old(self).options.unwrap(),
            old(self).options.is_none() ==> r == (RequestOptions {
                connect_timeout: None,
                first_byte_timeout: None,
                between_bytes_timeout: None,
            }),
            final(self).options == Some(r),
    {
        let o = match self.options {
            Some(o) => o,
            None => RequestOptions::new(),
        };
        self.options = Some(o);
        o
    }

    /// Sets the timeout on connecting to the server.
    pub fn set_connect_timeout(&mut self, d: Duration)
        ensures
            final(self).options.is_some(),
            final(self).options.unwrap().connect_timeout == Some(d),
            final(self).options.unwrap().first_byte_timeout == match old(self).options {
                Some(o) => o.first_byte_timeout,
                None => None,
            },
            final(self).options.unwrap().between_bytes_timeout == match old(self).options {
                Some(o) => o.between_bytes_timeout,
                None => None,
            },
    {
        let mut o = self.options_mut();
        o.connect_timeout = Some(d);
        self.options = Some(o);
    }

    /// Sets the timeout on receiving the first byte of the response.
    pub fn set_first_byte_timeout(&mut self, d: Duration)
        ensures
            final(self).options.is_some(),
            final(self).options.unwrap().first_byte_timeout == Some(d),
            final(self).options.unwrap().connect_timeout == match old(self).options {
                Some(o) => o.connect_timeout,
                None => None,
            },
            final(self).options.unwrap().between_bytes_timeout == match old(self).options {
                Some(o) => o.between_bytes_timeout,
                None => None,
            },
    {
        let mut o = self.options_mut();
        o.first_byte_timeout = Some(d);
        self.options = Some(o);
    }

    /// Sets the timeout between chunks of the response body.
    pub fn set_between_bytes_timeout(&mut self, d: Duration)
        ensures
            final(self).options.is_some(),
            final(self).options.unwrap().between_bytes_timeout == Some(d),
            final(self).options.unwrap().connect_timeout == match old(self).options {
                Some(o) => o.connect_timeout,
                None => None,
            },
            final(self).options.unwrap().first_byte_timeout == match old(self).options {
                Some(o) => o.first_byte_timeout,
                None => None,
            },
    {
        let mut o = self.options_mut();
        o.between_bytes_timeout = Some(d);
        self.options = Some(o);
    }

    /// The timeouts to hand the host with each request: none at all where
    /// no option was ever set.
    pub fn timeout_settings(&self) -> (r: Option<Vec<TimeoutSetting>>)
        ensures
            self.options.is_none() ==> r.is_none(),
            self.options.is_some() ==> r.is_some() && r.unwrap()@ == settings_spec(
                self.options.unwrap(),
            ),
    {
        match &self.options {
            Some(o) => Some(o.settings()),
            None => None,
        }
    }
}

} // verus!
