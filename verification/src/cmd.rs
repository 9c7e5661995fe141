//! The typed commands produced by the line parser, and the credentials
//! carried by an AUTH PLAIN exchange.

use vstd::prelude::*;

verus! {

/// Smtp commands sent by the client
#[derive(Clone, Debug)]
pub enum Cmd {
    /// EHLO with the client's domain
    Ehlo { domain: Vec<u8> },
    /// HELO with the client's domain
    Helo { domain: Vec<u8> },
    /// MAIL FROM with the reverse path (possibly empty for bounce messages)
    Mail { reverse_path: Vec<u8>, is8bit: bool },
    /// RCPT TO with one forward path
    Rcpt { forward_path: Vec<u8> },
    /// DATA
    Data,
    /// RSET
    Rset,
    /// NOOP
    Noop,
    /// STARTTLS
    StartTls,
    /// QUIT
    Quit,
    /// VRFY (the argument is ignored; the server never verifies)
    Vrfy,
    /// AUTH PLAIN with an initial response, already decoded
    AuthPlain { authorization_id: Vec<u8>, authentication_id: Vec<u8>, password: Vec<u8> },
    /// AUTH PLAIN without an initial response
    AuthPlainEmpty,
    /// AUTH LOGIN with an initial response, already decoded
    AuthLogin { username: Vec<u8> },
    /// AUTH LOGIN without an initial response
    AuthLoginEmpty,
    /// Synthetic command carrying a raw authentication continuation line
    AuthResponse { response: Vec<u8> },
    /// Synthetic command signifying the end of the message body
    DataEnd,
    /// Synthetic command sent when a STARTTLS handshake has completed
    StartedTls,
}

/// The mathematical model of a command
pub enum CmdModel {
    Ehlo { domain: Seq<u8> },
    Helo { domain: Seq<u8> },
    Mail { reverse_path: Seq<u8>, is8bit: bool },
    Rcpt { forward_path: Seq<u8> },
    Data,
    Rset,
    Noop,
    StartTls,
    Quit,
    Vrfy,
    AuthPlain { authorization_id: Seq<u8>, authentication_id: Seq<u8>, password: Seq<u8> },
    AuthPlainEmpty,
    AuthLogin { username: Seq<u8> },
    AuthLoginEmpty,
    AuthResponse { response: Seq<u8> },
    DataEnd,
    StartedTls,
}

impl View for Cmd {
    type V = CmdModel;

    open spec fn view(&self) -> CmdModel {
        match self {
            Cmd::Ehlo { domain } => CmdModel::Ehlo { domain: domain@ },
            Cmd::Helo { domain } => CmdModel::Helo { domain: domain@ },
            Cmd::Mail { reverse_path, is8bit } => CmdModel::Mail {
                reverse_path: reverse_path@,
                is8bit: *is8bit,
            },
            Cmd::Rcpt { forward_path } => CmdModel::Rcpt { forward_path: forward_path@ },
            Cmd::Data => CmdModel::Data,
            Cmd::Rset => CmdModel::Rset,
            Cmd::Noop => CmdModel::Noop,
            Cmd::StartTls => CmdModel::StartTls,
            Cmd::Quit => CmdModel::Quit,
            Cmd::Vrfy => CmdModel::Vrfy,
            Cmd::AuthPlain { authorization_id, authentication_id, password } => CmdModel::AuthPlain {
                authorization_id: authorization_id@,
                authentication_id: authentication_id@,
                password: password@,
            },
            Cmd::AuthPlainEmpty => CmdModel::AuthPlainEmpty,
            Cmd::AuthLogin { username } => CmdModel::AuthLogin { username: username@ },
            Cmd::AuthLoginEmpty => CmdModel::AuthLoginEmpty,
            Cmd::AuthResponse { response } => CmdModel::AuthResponse { response: response@ },
            Cmd::DataEnd => CmdModel::DataEnd,
            Cmd::StartedTls => CmdModel::StartedTls,
        }
    }
}

/// The three fields of a SASL PLAIN exchange
pub struct Credentials {
    /// The identity to act as
    pub authorization_id: Vec<u8>,
    /// The identity whose password is presented
    pub authentication_id: Vec<u8>,
    /// The password
    pub password: Vec<u8>,
}

/// The mathematical model of a set of credentials
pub struct CredentialsModel {
    pub authorization_id: Seq<u8>,
    pub authentication_id: Seq<u8>,
    pub password: Seq<u8>,
}

impl View for Credentials {
    type V = CredentialsModel;

    open spec fn view(&self) -> CredentialsModel {
        CredentialsModel {
            authorization_id: self.authorization_id@,
            authentication_id: self.authentication_id@,
            password: self.password@,
        }
    }
}

} // verus!
