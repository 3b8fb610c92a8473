use vstd::prelude::*;

use crate::packets::PacketId;

verus! {

/// Why a byte stream could not be read as a packet.
#[derive(Clone, Copy, Debug, PartialEq, Eq, Structural)]
pub enum ParseErrorCode {
    Default,
    IncorrectPacketId,
    IncorrectMinimumHeaderSize,
    MismatchedPacketSize,
    UnavailableMasterAddress,
    IncorrectPayloadSizeAskIPAck,
    IncorrectPayloadSize,
    MalformedPayload,
    StreamReadError,
}

/// A failure to decode a packet, with what was known of it.
#[derive(Clone, Copy, Debug, PartialEq, Eq, Structural)]
pub struct ParseError {
    pub error_code: ParseErrorCode,
    pub packet_id: Option<PacketId>,
    pub packet_id_value: Option<u8>,
    pub header_size: Option<usize>,
    pub payload_size: Option<usize>,
    pub packet_size: Option<usize>,
}

/// An error with the given code and nothing else known.
pub open spec fn bare_error(code: ParseErrorCode) -> ParseError {
    ParseError {
        error_code: code,
        packet_id: None,
        packet_id_value: None,
        header_size: None,
        payload_size: None,
        packet_size: None,
    }
}

impl ParseError {
    fn create_instance() -> (r: ParseError)
        ensures
            r == bare_error(ParseErrorCode::Default),
    {
        ParseError {
            error_code: ParseErrorCode::Default,
            packet_id: None,
            packet_id_value: None,
            header_size: None,
            payload_size: None,
            packet_size: None,
        }
    }

    /// The header's first byte names no packet kind.
    pub fn incorrect_packet_id(packet_id_value: u8) -> (r: ParseError)
        ensures
            r == (ParseError {
                packet_id_value: Some(packet_id_value),
                ..bare_error(ParseErrorCode::IncorrectPacketId)
            }),
    {
        let mut err = ParseError::create_instance();
        err.error_code = ParseErrorCode::IncorrectPacketId;
        err.packet_id_value = Some(packet_id_value);
        err
    }

    /// Fewer bytes arrived than a header takes.
    pub fn incorrect_min_header_size(header_size: usize) -> (r: ParseError)
        ensures
            r == (ParseError {
                header_size: Some(header_size),
                ..bare_error(ParseErrorCode::IncorrectMinimumHeaderSize)
            }),
    {
        let mut err = ParseError::create_instance();
        err.error_code = ParseErrorCode::IncorrectMinimumHeaderSize;
        err.header_size = Some(header_size);
        err
    }

    /// The number of bytes that arrived is not the header plus the declared payload.
    pub fn mismatched_packet_size(packet_id: PacketId, packet_size: usize, payload_size: usize) -> (r:
        ParseError)
        ensures
            r == (ParseError {
                packet_id: Some(packet_id),
                packet_size: Some(packet_size),
                payload_size: Some(payload_size),
                ..bare_error(ParseErrorCode::MismatchedPacketSize)
            }),
    {
        let mut err = ParseError::create_instance();
        err.error_code = ParseErrorCode::MismatchedPacketSize;
        err.packet_id = Some(packet_id);
        err.packet_size = Some(packet_size);
        err.payload_size = Some(payload_size);
        err
    }

    /// The DNS node knows no Master yet.
    pub fn unavailable_master_ip() -> (r: ParseError)
        ensures
            r == bare_error(ParseErrorCode::UnavailableMasterAddress),
    {
        let mut err = ParseError::create_instance();
        err.error_code = ParseErrorCode::UnavailableMasterAddress;
        err
    }

    /// An `AskIpAck` payload is neither empty nor an address.
    pub fn incorrect_payload_size_ask_ip_ack(payload_size: usize) -> (r: ParseError)
        ensures
            r == (ParseError {
                payload_size: Some(payload_size),
                ..bare_error(ParseErrorCode::IncorrectPayloadSizeAskIPAck)
            }),
    {
        let mut err = ParseError::create_instance();
        err.error_code = ParseErrorCode::IncorrectPayloadSizeAskIPAck;
        err.payload_size = Some(payload_size);
        err
    }

    /// A payload whose length does not fit the schema of its kind.
    pub fn incorrect_payload_size(packet_id: PacketId, payload_size: usize) -> (r: ParseError)
        ensures
            r == (ParseError {
                packet_id: Some(packet_id),
                payload_size: Some(payload_size),
                ..bare_error(ParseErrorCode::IncorrectPayloadSize)
            }),
    {
        let mut err = ParseError::create_instance();
        err.error_code = ParseErrorCode::IncorrectPayloadSize;
        err.packet_id = Some(packet_id);
        err.payload_size = Some(payload_size);
        err
    }

    /// A payload of the right length whose content breaks the schema of its kind.
    pub fn malformed_payload(packet_id: PacketId) -> (r: ParseError)
        ensures
            r == (ParseError {
                packet_id: Some(packet_id),
                ..bare_error(ParseErrorCode::MalformedPayload)
            }),
    {
        let mut err = ParseError::create_instance();
        err.error_code = ParseErrorCode::MalformedPayload;
        err.packet_id = Some(packet_id);
        err
    }

    /// Reading from the connection failed.
    pub fn stream_reading_err() -> (r: ParseError)
        ensures
            r == bare_error(ParseErrorCode::StreamReadError),
    {
        let mut err = ParseError::create_instance();
        err.error_code = ParseErrorCode::StreamReadError;
        err
    }
}

/// The worker of a node that could not be launched.
#[derive(Clone, Copy, Debug, PartialEq, Eq, Structural)]
pub enum NodeCreationErrorCode {
    Default,
    ReceiverThreadErr,
    ProcessorThreadErr,
    SenderThreadErr,
}

/// A node's worker could not be launched.
#[derive(Clone, Copy, Debug, PartialEq, Eq, Structural)]
pub struct NodeCreationError {
    pub error_code: NodeCreationErrorCode,
}

} // verus!
