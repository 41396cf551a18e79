use vstd::prelude::*;

verus! {

/// A message for the native fast-send engine, with every string already in
/// the form the engine receives it as a C string.
pub struct FastSend {
    pub token: String,
    pub chat_id: String,
    pub message: String,
    pub proxy: String,
    pub reply_to: i32,
}

/// A string as the engine receives it: a string with an interior NUL cannot
/// become a C string and is sent as the empty string instead.
pub open spec fn c_string_arg(s: Seq<char>) -> Seq<char> {
    if s.contains('\0') {
        Seq::<char>::empty()
    } else {
        s
    }
}

/// The message id replied to: none is sent as 0.
pub open spec fn reply_arg(reply: Option<i32>) -> i32 {
    match reply {
        Some(r) => r,
        None => 0,
    }
}

/// What `send_fast_with_reply` hands to the engine.
pub open spec fn spec_fast_send(
    token: Seq<char>,
    chat_id: Seq<char>,
    message: Seq<char>,
    proxy: Seq<char>,
    reply: Option<i32>,
    r: FastSend,
) -> bool {
    &&& r.token@ == c_string_arg(token)
    &&& r.chat_id@ == c_string_arg(chat_id)
    &&& r.message@ == c_string_arg(message)
    &&& r.proxy@ == c_string_arg(proxy)
    &&& r.reply_to == reply_arg(reply)
}

/// `s`, or the empty string when `s` holds a NUL character.
pub fn c_string_or_empty(s: &str) -> (r: String)
    ensures
        r@ == c_string_arg(s@),
{
    let n = s.unicode_len();
    let mut i: usize = 0;
    while i < n
        invariant
            n == s@.len(),
            i <= n,
            forall|j: int| 0 <= j < i ==> s@[j] != '\0',
        decreases n - i,
    {
        if s.get_char(i) == '\0' {
            assert(s@.contains('\0'));
            return String::new();
        }
        i = i + 1;
    }
    s.to_owned()
}

/// The request that sends `message` to `chat_id` through the engine, with
/// the given proxy and reply target.
pub fn send_fast_with_reply(
    token: &str,
    chat_id: &str,
    message: &str,
    proxy: &str,
    reply: Option<i32>,
) -> (r: FastSend)
    ensures
        spec_fast_send(token@, chat_id@, message@, proxy@, reply, r),
{
    let reply_to = match reply {
        Some(r) => r,
        None => 0,
    };
    FastSend {
        token: c_string_or_empty(token),
        chat_id: c_string_or_empty(chat_id),
        message: c_string_or_empty(message),
        proxy: c_string_or_empty(proxy),
        reply_to,
    }
}

/// The request that sends `message` to `chat_id` with no proxy and no reply
/// target; the flag is always true.
pub fn send_fast(token: &str, chat_id: &str, message: &str) -> (r: (bool, FastSend))
    ensures
        r.0,
        spec_fast_send(token@, chat_id@, message@, Seq::<char>::empty(), None, r.1),
{
    let req = send_fast_with_reply(token, chat_id, message, "", None);
    proof {
        reveal_strlit("");
    }
    assert(c_string_arg(""@) =~= Seq::<char>::empty());
    (true, req)
}

} // verus!
