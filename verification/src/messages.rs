//! Typed messages of the two wire schemas: the generic protocol-switch
//! handshake and the upload sub-protocol. Textual payloads travel as
//! UTF-8 bytes.

use vstd::prelude::*;

verus! {

/// The closed set of sub-protocols a connection can switch to.
#[derive(Clone, Copy, PartialEq, Eq, Structural, Debug)]
pub enum ClientType {
    Upload,
}

/// First message on a fresh connection: the peer declares which
/// sub-protocol it wants.
#[derive(Clone, Copy, PartialEq, Eq, Structural, Debug)]
pub enum RegisterClientReq {
    SwitchProtocol(ClientType),
}

/// The acceptor's reply to the protocol-switch request: success
/// (written `Ok` on the wire), or a rejection carrying an optional
/// reason (written `Err`).
#[derive(Clone, PartialEq, Eq, Debug)]
pub enum RegisterResult {
    Accepted,
    Rejected(Option<Vec<u8>>),
}

/// Mathematical model of a [`RegisterResult`].
pub enum RegisterResultV {
    Accepted,
    Rejected(Option<Seq<u8>>),
}

impl View for RegisterResult {
    type V = RegisterResultV;

    open spec fn view(&self) -> RegisterResultV {
        match self {
            RegisterResult::Accepted => RegisterResultV::Accepted,
            RegisterResult::Rejected(None) => RegisterResultV::Rejected(None),
            RegisterResult::Rejected(Some(reason)) => RegisterResultV::Rejected(Some(reason@)),
        }
    }
}

/// Client-to-server messages of the upload sub-protocol: declare the
/// destination path, then stream raw chunks.
#[derive(Clone, PartialEq, Eq, Debug)]
pub enum UploadRequest {
    Register(Vec<u8>),
    Upload(Vec<u8>),
}

/// Mathematical model of an [`UploadRequest`].
pub enum UploadRequestV {
    Register(Seq<u8>),
    Upload(Seq<u8>),
}

impl View for UploadRequest {
    type V = UploadRequestV;

    open spec fn view(&self) -> UploadRequestV {
        match self {
            UploadRequest::Register(path) => UploadRequestV::Register(path@),
            UploadRequest::Upload(data) => UploadRequestV::Upload(data@),
        }
    }
}

/// Server-to-client reply of the upload sub-protocol's handshake.
#[derive(Clone, Copy, PartialEq, Eq, Structural, Debug)]
pub enum UploadResponse {
    RegisterResult(bool),
}

impl View for UploadResponse {
    type V = UploadResponse;

    open spec fn view(&self) -> UploadResponse {
        *self
    }
}

} // verus!
