//! What is asked of the bot platform and what its answers mean.

use vstd::prelude::*;
use crate::text::{push_signed_decimal, signed_decimal_text};

verus! {

/// The chat a message was sent to.
#[derive(Debug)]
pub struct Chat {
    pub id: i64,
}

/// One size of a photo that the platform holds.
#[derive(Debug)]
pub struct PhotoSize {
    pub file_id: String,
}

/// A message, with the message that it replies to.
#[derive(Debug)]
pub struct Message {
    pub message_id: i64,
    pub chat: Chat,
    pub reply_to_message: Option<Box<Message>>,
    pub media_group_id: Option<String>,
    pub text: Option<String>,
    pub photo: Option<Vec<PhotoSize>>,
}

/// What an update carries.
#[derive(Debug)]
pub enum UpdateEnum {
    Message(Message),
    ChannelPost(Message),
}

/// One event of the platform. Its identifier places it in the stream.
#[derive(Debug)]
pub struct Update {
    pub update_id: i64,
    pub update_enum: UpdateEnum,
}

impl Update {
    /// The message that the update carries.
    pub fn message(&self) -> (r: &Message)
        ensures
            *r == match self.update_enum {
                UpdateEnum::Message(m) => m,
                UpdateEnum::ChannelPost(m) => m,
            },
    {
        match &self.update_enum {
            UpdateEnum::Message(m) => m,
            UpdateEnum::ChannelPost(m) => m,
        }
    }
}

/// The identifiers of `updates`, in their order.
pub open spec fn ids_of(updates: Seq<Update>) -> Seq<int> {
    updates.map_values(|u: Update| u.update_id as int)
}

/// The largest of `ids`; only meant for a sequence that is not empty.
pub open spec fn max_id(ids: Seq<int>) -> int
    decreases ids.len(),
{
    if ids.len() <= 1 {
        ids[0]
    } else if ids.last() > max_id(ids.drop_last()) {
        ids.last()
    } else {
        max_id(ids.drop_last())
    }
}

/// The offset after a batch with the identifiers `ids` was fetched at
/// `offset`: one more than the largest identifier, and `offset` itself
/// after an empty batch.
pub open spec fn offset_after(offset: int, ids: Seq<int>) -> int {
    if ids.len() == 0 {
        offset
    } else {
        max_id(ids) + 1
    }
}

/// `max_id` is an identifier of the batch, and none is larger.
pub proof fn lemma_max_id(ids: Seq<int>)
    requires
        ids.len() > 0,
    ensures
        ids.contains(max_id(ids)),
        forall|i: int| 0 <= i < ids.len() ==> ids[i] <= max_id(ids),
    decreases ids.len(),
{
    if ids.len() <= 1 {
        assert(ids[0] == max_id(ids));
    } else {
        let front = ids.drop_last();
        lemma_max_id(front);
        let m = max_id(front);
        let j = choose|j: int| 0 <= j < front.len() && front[j] == m;
        assert(ids[j] == m);
        assert(ids[ids.len() - 1] == ids.last());
        assert forall|i: int| 0 <= i < ids.len() implies ids[i] <= max_id(ids) by {
            if i < front.len() {
                assert(front[i] == ids[i]);
            }
        }
    }
}

/// The offset to ask with after `updates` were fetched at `offset`.
pub fn next_offset(offset: i64, updates: &Vec<Update>) -> (r: i64)
    requires
        forall|i: int| 0 <= i < updates.len() ==> (#[trigger] updates[i]).update_id < i64::MAX,
    ensures
        r == offset_after(offset as int, ids_of(updates@)),
{
    if updates.len() == 0 {
        return offset;
    }
    let mut largest = updates[0].update_id;
    let mut i: usize = 1;
    assert(ids_of(updates@).take(1) =~= seq![updates[0].update_id as int]);
    while i < updates.len()
        invariant
            1 <= i <= updates.len(),
            largest == max_id(ids_of(updates@).take(i as int)),
            largest < i64::MAX,
            forall|i: int| 0 <= i < updates.len() ==> (#[trigger] updates[i]).update_id < i64::MAX,
        decreases updates.len() - i,
    {
        proof {
            let next = ids_of(updates@).take(i + 1);
            assert(next.drop_last() =~= ids_of(updates@).take(i as int));
            assert(next.last() == updates[i as int].update_id);
        }
        if updates[i].update_id > largest {
            largest = updates[i].update_id;
        }
        i += 1;
    }
    assert(ids_of(updates@).take(updates.len() as int) =~= ids_of(updates@));
    largest + 1
}

/// What a request for updates at `offset` gives, once the platform has
/// answered with `response`: the offset to ask with next, and the updates.
pub fn get_updates(offset: i64, response: Vec<Update>) -> (r: (i64, Vec<Update>))
    requires
        forall|i: int| 0 <= i < response.len() ==> (#[trigger] response[i]).update_id < i64::MAX,
    ensures
        r.0 == offset_after(offset as int, ids_of(response@)),
        r.1 == response,
{
    let new_offset = next_offset(offset, &response);
    (new_offset, response)
}

/// Whether `next_offset` can be asked of `updates`: whether the successor
/// of every identifier is a number of the machine.
pub fn offsets_fit(updates: &Vec<Update>) -> (r: bool)
    ensures
        r == forall|i: int| 0 <= i < updates.len() ==> (#[trigger] updates[i]).update_id < i64::MAX,
{
    let mut i: usize = 0;
    while i < updates.len()
        invariant
            i <= updates.len(),
            forall|j: int| 0 <= j < i ==> (#[trigger] updates[j]).update_id < i64::MAX,
        decreases updates.len() - i,
    {
        if updates[i].update_id == i64::MAX {
            return false;
        }
        i += 1;
    }
    true
}

/// The parameters of a request for updates.
#[derive(Debug)]
pub struct GetUpdates {
    pub offset: i64,
    pub limit: i64,
    pub timeout: i64,
    pub allowed_updates: Vec<&'static str>,
}

/// The kinds of update of each name of `v`.
pub open spec fn kinds(v: Seq<&'static str>) -> Seq<Seq<char>> {
    v.map_values(|s: &'static str| s@)
}

impl GetUpdates {
    /// Whether this is the request that waits for updates from `offset` on:
    /// up to a hundred messages and channel posts, for up to a minute.
    pub open spec fn is_poll(&self, offset: int) -> bool {
        &&& self.offset == offset
        &&& self.limit == 100
        &&& self.timeout == 60
        &&& kinds(self.allowed_updates@) == seq!["message"@, "channel_post"@]
    }

    /// Whether this is the request that hands `offset` to the platform
    /// without waiting.
    pub open spec fn is_flush(&self, offset: int) -> bool {
        &&& self.offset == offset
        &&& self.limit == 1
        &&& self.timeout == 0
        &&& kinds(self.allowed_updates@) == seq!["message"@]
    }

    /// The request that waits for updates from `offset` on.
    pub fn poll(offset: i64) -> (r: Self)
        ensures
            r.is_poll(offset as int),
    {
        let mut allowed_updates: Vec<&'static str> = Vec::new();
        allowed_updates.push("message");
        allowed_updates.push("channel_post");
        assert(kinds(allowed_updates@) =~= seq!["message"@, "channel_post"@]);
        GetUpdates { offset, limit: 100, timeout: 60, allowed_updates }
    }

    /// The request that tells the platform, without waiting, that
    /// everything before `offset` was received.
    pub fn flush(offset: i64) -> (r: Self)
        ensures
            r.is_flush(offset as int),
    {
        let mut allowed_updates: Vec<&'static str> = Vec::new();
        allowed_updates.push("message");
        assert(kinds(allowed_updates@) =~= seq!["message"@]);
        GetUpdates { offset, limit: 1, timeout: 0, allowed_updates }
    }
}

/// The answer of the platform to a call.
#[derive(Debug)]
pub struct Response<T> {
    pub ok: bool,
    pub error_code: Option<i64>,
    pub description: Option<String>,
    pub result: Option<T>,
}

/// Why a call to the platform gave no result.
#[derive(Debug)]
pub enum ClientError {
    /// The platform said that the call succeeded and sent no result.
    NoResult,
    /// The platform said that the call failed and sent no error code.
    NoErrorCode,
    /// The platform said that the call failed and sent no description.
    NoDescription,
    /// The platform refused the call.
    Api { error_code: i64, description: String },
}

impl ClientError {
    /// The error in words.
    pub fn message(&self) -> (r: String)
        ensures
            r@ == match *self {
                ClientError::NoResult => "No result field found in OK response"@,
                ClientError::NoErrorCode => "No error_code field found in Err response"@,
                ClientError::NoDescription => "No description field found in Err response"@,
                ClientError::Api { error_code, description } => "Telegram call returned error: "@
                    + signed_decimal_text(error_code as int) + " - "@ + description@,
            },
    {
        match self {
            ClientError::NoResult => "No result field found in OK response".to_owned(),
            ClientError::NoErrorCode => "No error_code field found in Err response".to_owned(),
            ClientError::NoDescription => "No description field found in Err response".to_owned(),
            ClientError::Api { error_code, description } => {
                let mut out = "Telegram call returned error: ".to_owned();
                push_signed_decimal(&mut out, *error_code);
                out.append(" - ");
                out.append(description.as_str());
                out
            },
        }
    }
}

/// What `response` means: its result where the platform said that the call
/// succeeded, else the error that the platform gave. A part that is missing
/// is itself an error; of a failed call the error code is looked at first.
pub fn request_to_json<T>(response: Response<T>) -> (r: Result<T, ClientError>)
    ensures
        r == if response.ok {
            match response.result {
                Some(value) => Ok::<T, ClientError>(value),
                None => Err(ClientError::NoResult),
            }
        } else {
            match (response.error_code, response.description) {
                (None, _) => Err(ClientError::NoErrorCode),
                (Some(_), None) => Err(ClientError::NoDescription),
                (Some(error_code), Some(description)) => Err(
                    ClientError::Api { error_code, description },
                ),
            }
        },
{
    if response.ok {
        match response.result {
            Some(value) => Ok(value),
            None => Err(ClientError::NoResult),
        }
    } else {
        match response.error_code {
            None => Err(ClientError::NoErrorCode),
            Some(error_code) => match response.description {
                None => Err(ClientError::NoDescription),
                Some(description) => Err(ClientError::Api { error_code, description }),
            },
        }
    }
}

/// The address of the method `method` for the bot with the key `token`.
pub fn build_url(token: &str, method: &str) -> (r: String)
    ensures
        r@ == "https://api.telegram.org/bot"@ + token@ + "/"@ + method@,
{
    let mut url = "https://api.telegram.org/bot".to_owned();
    url.append(token);
    url.append("/");
    url.append(method);
    url
}

/// The address of the file at `file_path` for the bot with the key `token`.
pub fn file_url(token: &str, file_path: &str) -> (r: String)
    ensures
        r@ == "https://api.telegram.org/file/bot"@ + token@ + "/"@ + file_path@,
{
    let mut url = "https://api.telegram.org/file/bot".to_owned();
    url.append(token);
    url.append("/");
    url.append(file_path);
    url
}

} // verus!
