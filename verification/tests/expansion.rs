//! Whole expansions, compared token by token.
use proc_macro2::{TokenStream, TokenTree};
use vision_bindings::bindings::with_bindings;

const TEST: &str = "#[cfg(feature = \"module\")] #[no_mangle] pub extern \"C\" fn handle_test(from: Address, v: \
    ::vision_derive::vision_utils::types::Address, msg_id: u32) { use \
    ::vision_derive::vision_utils::actor::send_message; let cell = v; let v = v.clone(); \
    ::vision_derive::beacon_dao_allocator::len(cell, Callback::new(move |len| { let mut buf = \
    std::sync::Arc::new(std::sync::Mutex::new(Vec::new())); let n_done = \
    std::sync::Arc::new(std::sync::atomic::AtomicU32::new(0)); for i in 0..len { \
    buf.lock().unwrap().push(0); let buf = buf.clone(); let n_done = n_done.clone(); let v = \
    v.clone(); ::vision_derive::beacon_dao_allocator::read(cell, i, Callback::new(move |val| { \
    buf.lock().unwrap()[i as usize] = val; if n_done.fetch_add(1, \
    std::sync::atomic::Ordering::SeqCst) == len - 1 { let v = \
    std::sync::Arc::new(std::sync::Mutex::new(Some(::vision_derive::serde_json::from_slice(&buf.lock().unwrap()).expect(\"Failed \
    to deserialize input parameters.\")))); let from = from as Address; let from = \
    std::sync::Arc::new(std::sync::Mutex::new(Some(from))); { let from = from.clone(); let from \
    = from.clone(); let v = v.clone(); let cb = { let from = from.clone(); move |arg: String| { \
    use ::vision_derive::serde::Serialize; let mut v: Vec<u8> = Vec::with_capacity(8i32 as \
    usize); let v_ptr = v.as_ptr() as i32; drop(&v_ptr); let mut bytes = Vec::from((msg_id as \
    u32).to_le_bytes()); let msg_id = v.as_ptr() as i32 + v.len() as i32; drop(&msg_id); \
    bytes.append(&mut v); let mut v = bytes; let v_bytes = \
    ::vision_derive::serde_json::to_vec(&arg).unwrap(); let arg = v.as_ptr() as i32 + v.len() as \
    i32; drop(&arg); \
    ::vision_derive::beacon_dao_allocator::allocate(::vision_derive::vision_utils::types::ALLOCATOR_ADDR, \
    v_bytes.len() as u32, ::vision_derive::vision_utils::types::Callback::new(move |res_buf: \
    u32| { let mut cell_addr_bytes = Vec::from(res_buf.to_le_bytes()); \
    cell_addr_bytes.append(&mut v); let mut v = cell_addr_bytes; for (i, b) in \
    v_bytes.iter().enumerate() { ::vision_derive::beacon_dao_allocator::write(res_buf, i as u32, \
    *b, ::vision_derive::vision_utils::types::Callback::new(|_| {})); } let arg = arg.clone(); \
    let arg = arg.clone(); let msg_id = msg_id.clone(); let handler_name = \
    std::ffi::CString::new(\"test_09ab10612e573107a62378a331f68247df41f144e2400cfc6e39e0de49088f10_ret\").expect(\"Invalid \
    scheduler message kind encoding\"); send_message((*from.lock().unwrap()).unwrap(), \
    handler_name.as_ptr() as i32, arg); })); } }; \
    inner_handle_test(from.lock().unwrap().take().unwrap(), v.lock().unwrap().take().unwrap(), \
    ::vision_derive::vision_utils::types::Callback::new(cb)); }; } })); } })); } #[cfg(feature = \
    \"module\")] pub extern \"C\" fn inner_handle_test(from: Address, v: String, callback: \
    Callback<String>) { callback.call(String::from(\"hello there\")); } pub static \
    PIPELINE_TEST: RwLock<Vec<Option<Callback<String>>>> = RwLock::new(Vec::new()); \
    #[cfg(not(feature = \"module\"))] #[no_mangle] pub extern \"C\" fn \
    handle_test_09ab10612e573107a62378a331f68247df41f144e2400cfc6e39e0de49088f10_ret(from: \
    ::vision_derive::vision_utils::types::Address, arg: \
    ::vision_derive::vision_utils::types::Address, msg_id: u32) { let msg_id = msg_id as u32; \
    let msg_id = std::sync::Arc::new(std::sync::Mutex::new(Some(msg_id))); { let cell = arg; let \
    arg = arg.clone(); let msg_id = msg_id.clone(); \
    ::vision_derive::beacon_dao_allocator::len(cell, Callback::new(move |len| { let mut buf = \
    std::sync::Arc::new(std::sync::Mutex::new(Vec::new())); let n_done = \
    std::sync::Arc::new(std::sync::atomic::AtomicU32::new(0)); for i in 0..len { \
    buf.lock().unwrap().push(0); let buf = buf.clone(); let n_done = n_done.clone(); let arg = \
    arg.clone(); let msg_id = msg_id.clone(); ::vision_derive::beacon_dao_allocator::read(cell, \
    i, Callback::new(move |val| { buf.lock().unwrap()[i as usize] = val; if n_done.fetch_add(1, \
    std::sync::atomic::Ordering::SeqCst) == len - 1 { let arg = \
    std::sync::Arc::new(std::sync::Mutex::new(Some(::vision_derive::serde_json::from_slice(&buf.lock().unwrap()).expect(\"Failed \
    to deserialize input parameters.\")))); let arg = arg.clone(); let arg = arg.clone(); let \
    msg_id = msg_id.clone(); let mut lock = PIPELINE_TEST.write().unwrap(); let maybe_cb = \
    lock.get_mut(msg_id.lock().unwrap().take().unwrap() as usize).unwrap().take(); if let \
    Some(callback) = maybe_cb { callback.call(arg.lock().unwrap().take().unwrap()); } } })); } \
    })); }; } #[macro_export] macro_rules! include_test_ret { () => { #[no_mangle] pub extern \
    \"C\" fn \
    handle_test_09ab10612e573107a62378a331f68247df41f144e2400cfc6e39e0de49088f10_ret(from: \
    ::vision_derive::vision_utils::types::Address, arg: \
    ::vision_derive::vision_utils::types::Address, msg_id: u32) { let msg_id = msg_id as u32; \
    let msg_id = std::sync::Arc::new(std::sync::Mutex::new(Some(msg_id))); { let cell = arg; let \
    arg = arg.clone(); let msg_id = msg_id.clone(); \
    ::vision_derive::beacon_dao_allocator::len(cell, Callback::new(move |len| { let mut buf = \
    std::sync::Arc::new(std::sync::Mutex::new(Vec::new())); let n_done = \
    std::sync::Arc::new(std::sync::atomic::AtomicU32::new(0)); for i in 0..len { \
    buf.lock().unwrap().push(0); let buf = buf.clone(); let n_done = n_done.clone(); let arg = \
    arg.clone(); let msg_id = msg_id.clone(); ::vision_derive::beacon_dao_allocator::read(cell, \
    i, Callback::new(move |val| { buf.lock().unwrap()[i as usize] = val; if n_done.fetch_add(1, \
    std::sync::atomic::Ordering::SeqCst) == len - 1 { let arg = \
    std::sync::Arc::new(std::sync::Mutex::new(Some(::vision_derive::serde_json::from_slice(&buf.lock().unwrap()).expect(\"Failed \
    to deserialize input parameters.\")))); let arg = arg.clone(); let arg = arg.clone(); let \
    msg_id = msg_id.clone(); let mut lock = PIPELINE_TEST.write().unwrap(); let maybe_cb = \
    lock.get_mut(msg_id.lock().unwrap().take().unwrap() as usize).unwrap().take(); if let \
    Some(callback) = maybe_cb { callback.call(arg.lock().unwrap().take().unwrap()); } } })); } \
    })); }; } }; } pub fn test(to: ::vision_derive::vision_utils::types::Address, v: String, \
    callback: Callback<String>) { use ::vision_derive::vision_utils::actor::send_message; let \
    msg_id: u32 = { let mut lock = PIPELINE_TEST.write().unwrap(); lock.push(Some(callback)); \
    let id = lock.len() as u32 - 1; id }; use ::vision_derive::serde::Serialize; let mut v: \
    Vec<u8> = Vec::with_capacity(8i32 as usize); let v_ptr = v.as_ptr() as i32; drop(&v_ptr); \
    let mut bytes = Vec::from((msg_id as u32).to_le_bytes()); let msg_id = v.as_ptr() as i32 + \
    v.len() as i32; drop(&msg_id); bytes.append(&mut v); let mut v = bytes; let v_bytes = \
    ::vision_derive::serde_json::to_vec(&v).unwrap(); let v = v.as_ptr() as i32 + v.len() as \
    i32; drop(&v); \
    ::vision_derive::beacon_dao_allocator::allocate(::vision_derive::vision_utils::types::ALLOCATOR_ADDR, \
    v_bytes.len() as u32, ::vision_derive::vision_utils::types::Callback::new(move |res_buf: \
    u32| { let mut cell_addr_bytes = Vec::from(res_buf.to_le_bytes()); \
    cell_addr_bytes.append(&mut v); let mut v = cell_addr_bytes; for (i, b) in \
    v_bytes.iter().enumerate() { ::vision_derive::beacon_dao_allocator::write(res_buf, i as u32, \
    *b, ::vision_derive::vision_utils::types::Callback::new(|_| {})); } let v = v.clone(); let v \
    = v.clone(); let msg_id = msg_id.clone(); let msg_kind = std::ffi::CString::new(\"test\") \
    .expect(\"Invalid scheduler message kind encoding\"); send_message(to, msg_kind.as_ptr() as \
    i32, v); })); }";

const COUNT: &str = "#[cfg(feature = \"module\")] pub extern \"C\" fn handle_count(from: Address, start: u64, \
    step: i8, names: ::vision_utils::types::Address, msg_id: u32) { use \
    ::vision_utils::actor::send_message; let cell = names; let names = names.clone(); \
    self::len(cell, Callback::new(move |len| { let mut buf = \
    std::sync::Arc::new(std::sync::Mutex::new(Vec::new())); let n_done = \
    std::sync::Arc::new(std::sync::atomic::AtomicU32::new(0)); for i in 0..len { \
    buf.lock().unwrap().push(0); let buf = buf.clone(); let n_done = n_done.clone(); let names = \
    names.clone(); self::read(cell, i, Callback::new(move |val| { buf.lock().unwrap()[i as \
    usize] = val; if n_done.fetch_add(1, std::sync::atomic::Ordering::SeqCst) == len - 1 { let \
    names = \
    std::sync::Arc::new(std::sync::Mutex::new(Some(::serde_json::from_slice(&buf.lock().unwrap()).expect(\"Failed \
    to deserialize input parameters.\")))); let step = step as i8; let step = \
    std::sync::Arc::new(std::sync::Mutex::new(Some(step))); { let start = start as u64; let \
    start = std::sync::Arc::new(std::sync::Mutex::new(Some(start))); { let from = from as \
    Address; let from = std::sync::Arc::new(std::sync::Mutex::new(Some(from))); { let from = \
    from.clone(); let from = from.clone(); let start = start.clone(); let step = step.clone(); \
    let names = names.clone(); let cb = { let from = from.clone(); move |arg: i16| { use \
    ::serde::Serialize; let mut v: Vec<u8> = Vec::with_capacity(8i32 as usize); let v_ptr = \
    v.as_ptr() as i32; drop(&v_ptr); let mut bytes = Vec::from((msg_id as u32).to_le_bytes()); \
    let msg_id = v.as_ptr() as i32 + v.len() as i32; drop(&msg_id); bytes.append(&mut v); let \
    mut v = bytes; let mut bytes = Vec::from((arg as i32).to_le_bytes()); let arg = v.as_ptr() \
    as i32 + v.len() as i32; drop(&arg); bytes.append(&mut v); let mut v = bytes; let arg = \
    arg.clone(); let arg = arg.clone(); let msg_id = msg_id.clone(); let handler_name = \
    std::ffi::CString::new(\"count_4d18a68e907361bbf5e7d5d4583178bd2d46ddb652cc05e00178f4809d1636d8_ret\").expect(\"Invalid \
    scheduler message kind encoding\"); send_message((*from.lock().unwrap()).unwrap(), \
    handler_name.as_ptr() as i32, arg); } }; \
    inner_handle_count(from.lock().unwrap().take().unwrap(), \
    start.lock().unwrap().take().unwrap(), step.lock().unwrap().take().unwrap(), \
    names.lock().unwrap().take().unwrap(), ::vision_utils::types::Callback::new(cb)); }; }; }; } \
    })); } })); } #[cfg(feature = \"module\")] pub fn inner_handle_count(from: Address, start: \
    u64, step: i8, names: Vec<String>, cb: Callback<i16>) { } pub static PIPELINE_COUNT: \
    RwLock<Vec<Option<Callback<i16>>>> = RwLock::new(Vec::new()); #[cfg(not(feature = \
    \"module\"))] #[no_mangle] pub extern \"C\" fn \
    handle_count_4d18a68e907361bbf5e7d5d4583178bd2d46ddb652cc05e00178f4809d1636d8_ret(from: \
    ::vision_utils::types::Address, arg: i16, msg_id: u32) { let msg_id = msg_id as u32; let \
    msg_id = std::sync::Arc::new(std::sync::Mutex::new(Some(msg_id))); { let arg = arg as i16; \
    let arg = std::sync::Arc::new(std::sync::Mutex::new(Some(arg))); { let arg = arg.clone(); \
    let arg = arg.clone(); let msg_id = msg_id.clone(); let mut lock = \
    PIPELINE_COUNT.write().unwrap(); let maybe_cb = \
    lock.get_mut(msg_id.lock().unwrap().take().unwrap() as usize).unwrap().take(); if let \
    Some(callback) = maybe_cb { callback.call(arg.lock().unwrap().take().unwrap()); } }; }; } \
    #[macro_export] macro_rules! include_count_ret { () => { #[no_mangle] pub extern \"C\" fn \
    handle_count_4d18a68e907361bbf5e7d5d4583178bd2d46ddb652cc05e00178f4809d1636d8_ret(from: \
    ::vision_utils::types::Address, arg: i16, msg_id: u32) { let msg_id = msg_id as u32; let \
    msg_id = std::sync::Arc::new(std::sync::Mutex::new(Some(msg_id))); { let arg = arg as i16; \
    let arg = std::sync::Arc::new(std::sync::Mutex::new(Some(arg))); { let arg = arg.clone(); \
    let arg = arg.clone(); let msg_id = msg_id.clone(); let mut lock = \
    PIPELINE_COUNT.write().unwrap(); let maybe_cb = \
    lock.get_mut(msg_id.lock().unwrap().take().unwrap() as usize).unwrap().take(); if let \
    Some(callback) = maybe_cb { callback.call(arg.lock().unwrap().take().unwrap()); } }; }; } }; \
    } pub fn count(to: ::vision_utils::types::Address, start: u64, step: i8, names: Vec<String>, \
    callback: Callback<i16>) { use ::vision_utils::actor::send_message; let msg_id: u32 = { let \
    mut lock = PIPELINE_COUNT.write().unwrap(); lock.push(Some(callback)); let id = lock.len() \
    as u32 - 1; id }; use ::serde::Serialize; let mut v: Vec<u8> = Vec::with_capacity(20i32 as \
    usize); let v_ptr = v.as_ptr() as i32; drop(&v_ptr); let mut bytes = Vec::from((msg_id as \
    u32).to_le_bytes()); let msg_id = v.as_ptr() as i32 + v.len() as i32; drop(&msg_id); \
    bytes.append(&mut v); let mut v = bytes; let v_bytes = \
    ::serde_json::to_vec(&names).unwrap(); let names = v.as_ptr() as i32 + v.len() as i32; \
    drop(&names); self::allocate(::vision_utils::types::ALLOCATOR_ADDR, v_bytes.len() as u32, \
    ::vision_utils::types::Callback::new(move |res_buf: u32| { let mut cell_addr_bytes = \
    Vec::from(res_buf.to_le_bytes()); cell_addr_bytes.append(&mut v); let mut v = \
    cell_addr_bytes; for (i, b) in v_bytes.iter().enumerate() { self::write(res_buf, i as u32, \
    *b, ::vision_utils::types::Callback::new(|_| {})); } let mut bytes = Vec::from((step as \
    i32).to_le_bytes()); let step = v.as_ptr() as i32 + v.len() as i32; drop(&step); \
    bytes.append(&mut v); let mut v = bytes; let mut bytes = Vec::from((start as \
    u64).to_le_bytes()); let start = v.as_ptr() as i32 + v.len() as i32; drop(&start); \
    bytes.append(&mut v); let mut v = bytes; let start = start.clone(); let start = \
    start.clone(); let step = step.clone(); let names = names.clone(); let msg_id = \
    msg_id.clone(); let msg_kind = std::ffi::CString::new(\"count\") .expect(\"Invalid scheduler \
    message kind encoding\"); send_message(to, msg_kind.as_ptr() as i32, start); })); }";

const POLL: &str = "#[cfg(feature = \"module\")] pub extern \"C\" fn handle_poll(from: Address, msg_id: u32) { \
    use ::vision_utils::actor::send_message; let from = from as Address; let from = \
    std::sync::Arc::new(std::sync::Mutex::new(Some(from))); { let from = from.clone(); let from \
    = from.clone(); let cb = { let from = from.clone(); move |arg: u64| { use \
    ::serde::Serialize; let mut v: Vec<u8> = Vec::with_capacity(12i32 as usize); let v_ptr = \
    v.as_ptr() as i32; drop(&v_ptr); let mut bytes = Vec::from((msg_id as u32).to_le_bytes()); \
    let msg_id = v.as_ptr() as i32 + v.len() as i32; drop(&msg_id); bytes.append(&mut v); let \
    mut v = bytes; let mut bytes = Vec::from((arg as u64).to_le_bytes()); let arg = v.as_ptr() \
    as i32 + v.len() as i32; drop(&arg); bytes.append(&mut v); let mut v = bytes; let arg = \
    arg.clone(); let arg = arg.clone(); let msg_id = msg_id.clone(); let handler_name = \
    std::ffi::CString::new(\"poll_d1d650b26046b559f064f394afdba3b4b4a7a963e6855e2da78ce0001af4b044_ret\").expect(\"Invalid \
    scheduler message kind encoding\"); send_message((*from.lock().unwrap()).unwrap(), \
    handler_name.as_ptr() as i32, arg); } }; \
    inner_handle_poll(from.lock().unwrap().take().unwrap(), \
    ::vision_utils::types::Callback::new(cb)); }; } #[cfg(feature = \"module\")] pub fn \
    inner_handle_poll(from: Address, cb: Callback<u64>) { } pub static PIPELINE_POLL: \
    RwLock<Vec<Option<Callback<u64>>>> = RwLock::new(Vec::new()); #[cfg(not(feature = \
    \"module\"))] #[no_mangle] pub extern \"C\" fn \
    handle_poll_d1d650b26046b559f064f394afdba3b4b4a7a963e6855e2da78ce0001af4b044_ret(from: \
    ::vision_utils::types::Address, arg: u64, msg_id: u32) { let msg_id = msg_id as u32; let \
    msg_id = std::sync::Arc::new(std::sync::Mutex::new(Some(msg_id))); { let arg = arg as u64; \
    let arg = std::sync::Arc::new(std::sync::Mutex::new(Some(arg))); { let arg = arg.clone(); \
    let arg = arg.clone(); let msg_id = msg_id.clone(); let mut lock = \
    PIPELINE_POLL.write().unwrap(); let maybe_cb = \
    lock.get_mut(msg_id.lock().unwrap().take().unwrap() as usize).unwrap().take(); if let \
    Some(callback) = maybe_cb { callback.call(arg.lock().unwrap().take().unwrap()); } }; }; } \
    #[macro_export] macro_rules! include_poll_ret { () => { #[no_mangle] pub extern \"C\" fn \
    handle_poll_d1d650b26046b559f064f394afdba3b4b4a7a963e6855e2da78ce0001af4b044_ret(from: \
    ::vision_utils::types::Address, arg: u64, msg_id: u32) { let msg_id = msg_id as u32; let \
    msg_id = std::sync::Arc::new(std::sync::Mutex::new(Some(msg_id))); { let arg = arg as u64; \
    let arg = std::sync::Arc::new(std::sync::Mutex::new(Some(arg))); { let arg = arg.clone(); \
    let arg = arg.clone(); let msg_id = msg_id.clone(); let mut lock = \
    PIPELINE_POLL.write().unwrap(); let maybe_cb = \
    lock.get_mut(msg_id.lock().unwrap().take().unwrap() as usize).unwrap().take(); if let \
    Some(callback) = maybe_cb { callback.call(arg.lock().unwrap().take().unwrap()); } }; }; } }; \
    } pub fn poll(to: ::vision_utils::types::Address, callback: Callback<u64>) { use \
    ::vision_utils::actor::send_message; let msg_id: u32 = { let mut lock = \
    PIPELINE_POLL.write().unwrap(); lock.push(Some(callback)); let id = lock.len() as u32 - 1; \
    id }; use ::serde::Serialize; let mut v: Vec<u8> = Vec::with_capacity(4i32 as usize); let \
    v_ptr = v.as_ptr() as i32; drop(&v_ptr); let mut bytes = Vec::from((msg_id as \
    u32).to_le_bytes()); let msg_id = v.as_ptr() as i32 + v.len() as i32; drop(&msg_id); \
    bytes.append(&mut v); let mut v = bytes; let msg_id = msg_id.clone(); let msg_id = \
    msg_id.clone(); let msg_kind = std::ffi::CString::new(\"poll\") .expect(\"Invalid scheduler \
    message kind encoding\"); send_message(to, msg_kind.as_ptr() as i32, v_ptr); }";

fn flatten(stream: TokenStream, out: &mut Vec<String>) {
    for tree in stream {
        match tree {
            TokenTree::Group(group) => {
                out.push(format!("{:?}", group.delimiter()));
                flatten(group.stream(), out);
                out.push("end".to_string());
            }
            TokenTree::Punct(punct) => out.push(punct.as_char().to_string()),
            other => out.push(other.to_string()),
        }
    }
}

fn tokens(text: &str) -> Vec<String> {
    let mut out = Vec::new();
    flatten(text.parse().unwrap(), &mut out);
    out
}

#[test]
fn expands_a_handler_of_a_cell() {
    let code = with_bindings(
        "",
        "#[no_mangle]
        pub extern \"C\" fn handle_test(from: Address, v: String, callback: Callback<String>) {
            callback.call(String::from(\"hello there\"));
        }",
    )
    .unwrap();
    assert_eq!(tokens(&code), tokens(TEST));
    assert_eq!(code.matches("send_message(to").count(), 1);
    assert_eq!(code.matches("send_message((*from").count(), 1);
    assert_eq!(code.matches("inner_handle_test(").count(), 1);
}

#[test]
fn expands_a_handler_of_copies_and_cells() {
    let code = with_bindings(
        "self",
        "pub fn handle_count(from: Address, start: u64, step: i8, names: Vec<String>, cb: Callback<i16>) {}",
    )
    .unwrap();
    assert_eq!(tokens(&code), tokens(COUNT));
}

#[test]
fn expands_a_handler_of_nothing_but_the_sender() {
    let code = with_bindings("self", "pub fn handle_poll(from: Address, cb: Callback<u64>) {}").unwrap();
    assert_eq!(tokens(&code), tokens(POLL));
}
