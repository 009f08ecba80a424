//! Decoder for MariaDB binary replication log (binlog) files.
//!
//! A binlog file starts with the four magic bytes `0xFE 'b' 'i' 'n'` and then
//! holds a sequence of events, each framed by a 19-byte header followed by a
//! body of `event_length - 19` bytes. This crate decodes the framing, the
//! event bodies of the supported type codes, and the column values of row
//! events, which depend on schema information learned from earlier Table-Map
//! events.

use vstd::prelude::*;

verus! {

/// The four magic bytes that open every binlog file.
pub open spec fn spec_magic() -> Seq<u8> {
    seq![0xFEu8, 0x62u8, 0x69u8, 0x6Eu8]
}

/// Returns whether the first four bytes of `buffer` are the binlog magic.
///
/// Fails exactly when the buffer holds fewer than four bytes, mirroring a
/// short read at the head of the file.
pub fn check_file_magic_number(buffer: &[u8]) -> (r: Result<bool, crate::model::MyError>)
    ensures
        r is Ok <==> buffer@.len() >= 4,
        r matches Ok(b) ==> (b <==> buffer@.subrange(0, 4) == spec_magic()),
        r matches Err(e) ==> e.0@ == crate::model::msg_truncated(),
{
    if buffer.len() < 4 {
        return Err(crate::model::MyError::truncated());
    }
    let ok = buffer[0] == 0xFE && buffer[1] == 0x62 && buffer[2] == 0x69 && buffer[3] == 0x6E;
    proof {
        if ok {
            assert(buffer@.subrange(0, 4) =~= spec_magic());
        } else {
            assert(buffer@.subrange(0, 4)[0] == buffer@[0]);
            assert(buffer@.subrange(0, 4)[1] == buffer@[1]);
            assert(buffer@.subrange(0, 4)[2] == buffer@[2]);
            assert(buffer@.subrange(0, 4)[3] == buffer@[3]);
        }
    }
    Ok(ok)
}

} // verus!

pub mod bytes;
pub mod catalogue;
pub mod decimal;
pub mod events;
pub mod model;
pub mod render;
pub mod rows;
pub mod status_vars;
pub mod temporal;
