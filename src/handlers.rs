use vstd::prelude::*;

use crate::model::lookup;
use crate::store::KeyValueStore;

verus! {

/// HTTP status of a request that succeeded.
pub const STATUS_OK: u16 = 200;

/// HTTP status of a read or delete whose key is absent.
pub const STATUS_NOT_FOUND: u16 = 404;

/// What the transport sends back for one request: a status and a body.
#[derive(Debug, PartialEq, Eq)]
pub struct Response {
    pub status: u16,
    pub body: String,
}

impl View for Response {
    type V = (u16, Seq<char>);

    open spec fn view(&self) -> (u16, Seq<char>) {
        (self.status, self.body@)
    }
}

/// The reply to a read or delete that found `found`: the value with
/// `STATUS_OK`, or an empty body with `STATUS_NOT_FOUND`.
pub open spec fn reply(found: Option<Seq<char>>) -> (u16, Seq<char>) {
    match found {
        Some(v) => (STATUS_OK, v),
        None => (STATUS_NOT_FOUND, Seq::empty()),
    }
}

fn reply_of(found: Option<String>) -> (r: Response)
    ensures
        r@ == reply(crate::model::opt_view(found)),
{
    match found {
        Some(v) => Response { status: STATUS_OK, body: v },
        None => Response { status: STATUS_NOT_FOUND, body: String::new() },
    }
}

/// `GET /-/{key}`: the stored value, or not found.
pub fn get_data(store: &KeyValueStore, key: &String) -> (r: Response)
    requires
        store.wf(),
    ensures
        r@ == reply(lookup(store@, key@)),
{
    reply_of(store.get(key))
}

/// `POST /-/{key}`: stores the body under the key and echoes it back.
pub fn post_data(store: &mut KeyValueStore, key: String, body: String) -> (r: Response)
    requires
        old(store).wf(),
    ensures
        final(store).wf(),
        final(store)@ == old(store)@.insert(key@, body@),
        r@ == (STATUS_OK, body@),
{
    let stored = store.put(key, body);
    Response { status: STATUS_OK, body: stored }
}

/// `DELETE /-/{key}`: removes the key and returns the value it held, or not
/// found with the store unchanged.
pub fn delete_data(store: &mut KeyValueStore, key: &String) -> (r: Response)
    requires
        old(store).wf(),
    ensures
        final(store).wf(),
        final(store)@ == old(store)@.remove(key@),
        r@ == reply(lookup(old(store)@, key@)),
{
    reply_of(store.delete(key))
}

} // verus!
