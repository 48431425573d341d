//! The status report that the bot posts: the host's status, written as YAML,
//! attached to the message as a file.

use vstd::prelude::*;
use vstd::utf8::encode_utf8;

verus! {

/// A file attached to a Discord message.
pub struct Attachment {
    pub data: Vec<u8>,
    pub filename: String,
}

/// The attachment of a status report, given the report written as YAML, or
/// `None` when writing it failed: the YAML bytes as `status.yaml`, or an
/// empty file named `failed to make.yaml`.
pub fn status_attachment(yaml: Option<String>) -> (file: Attachment)
    ensures
        match yaml {
            Some(text) => file.data@ == encode_utf8(text@) && file.filename@
                == "status.yaml"@,
            None => file.data@.len() == 0 && file.filename@ == "failed to make.yaml"@,
        },
{
    match yaml {
        Some(text) => Attachment {
            data: vstd::slice::slice_to_vec(text.as_str().as_bytes()),
            filename: "status.yaml".to_owned(),
        },
        None => Attachment { data: Vec::new(), filename: "failed to make.yaml".to_owned() },
    }
}

} // verus!
