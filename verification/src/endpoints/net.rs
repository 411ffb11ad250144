//! Switching network access on and off.
use vstd::prelude::*;
use std::collections::VecDeque;
use crate::responses::{
    ApiResponse, ContentKind, ResponseBody, is_json_text, is_ok_ok, make_net_status_response,
    net_status_body, ok_ok_json_response, STATUS_OK,
};
use crate::text::string_views;

verus! {

/// The queue of notification messages waiting to be streamed to clients.
pub type MsgQueue = VecDeque<String>;

/// Appends a message to the notification queue.
pub fn push_message(msgs: &mut MsgQueue, msg: &str)
    ensures
        string_views(final(msgs)@) == string_views(old(msgs)@).push(msg@),
{
    let ghost before = msgs@;
    msgs.push_back(msg.to_owned());
    assert(string_views(msgs@) =~= string_views(before).push(msg@));
}

/// The current network state: `{"is_enabled":<enabled>}`.
pub fn net_status(net_enabled: bool) -> (r: ApiResponse)
    ensures
        is_json_text(r, STATUS_OK, net_status_body(net_enabled)),
{
    ApiResponse {
        status: STATUS_OK,
        content_kind: ContentKind::Json,
        body: ResponseBody::Text(make_net_status_response(net_enabled)),
    }
}

/// Enables the network and announces it on the notification queue.
pub fn net_enable(msgs: &mut MsgQueue, net_enabled: &mut bool) -> (r: ApiResponse)
    ensures
        *final(net_enabled),
        string_views(final(msgs)@) == string_views(old(msgs)@).push("info--5--net--enable"@),
        is_ok_ok(r),
{
    push_message(msgs, "info--5--net--enable");
    *net_enabled = true;
    ok_ok_json_response()
}

/// Disables the network and announces it on the notification queue.
pub fn net_disable(msgs: &mut MsgQueue, net_enabled: &mut bool) -> (r: ApiResponse)
    ensures
        !*final(net_enabled),
        string_views(final(msgs)@) == string_views(old(msgs)@).push("info--5--net--disable"@),
        is_ok_ok(r),
{
    push_message(msgs, "info--5--net--disable");
    *net_enabled = false;
    ok_ok_json_response()
}

} // verus!
