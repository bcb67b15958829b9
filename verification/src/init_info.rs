//! What the plugin learns from lightningd's `init` call, and the state that
//! holds it once it has arrived from the RPC thread.

use std::sync::Arc;
use vstd::prelude::*;
use vstd::string::*;
use crossbeam_channel::Receiver;

verus! {

/// Where lightningd's RPC socket is, what `Authorization` header a request
/// must carry, and which port the HTTP server listens on.
#[derive(Clone, Debug)]
pub struct InitInfo {
    pub socket_path: String,
    pub auth_header: Option<String>,
    pub http_port: u16,
}

/// The mathematical content of an [`InitInfo`].
pub struct InitInfoView {
    pub socket_path: Seq<char>,
    pub auth_header: Option<Seq<char>>,
    pub http_port: u16,
}

impl View for InitInfo {
    type V = InitInfoView;

    open spec fn view(&self) -> InitInfoView {
        InitInfoView {
            socket_path: self.socket_path@,
            auth_header: match self.auth_header {
                Some(h) => Some(h@),
                None => None,
            },
            http_port: self.http_port,
        }
    }
}

/// The path that `file` names relative to the directory `dir`, as a Unix
/// path is joined: an absolute `file` stands for itself; otherwise `file` is
/// appended to `dir`, with a `/` between them unless `dir` is empty or already
/// ends with one.
pub open spec fn joined_path(dir: Seq<char>, file: Seq<char>) -> Seq<char> {
    if file.len() > 0 && file[0] == '/' {
        file
    } else if dir.len() == 0 || dir.last() == '/' {
        dir + file
    } else {
        dir + seq!['/'] + file
    }
}

/// Joins `file` onto the directory `dir` (see [`joined_path`]).
pub fn join_path(dir: &str, file: &str) -> (path: String)
    ensures
        path@ == joined_path(dir@, file@),
{
    let file_len = file.unicode_len();
    let dir_len = dir.unicode_len();
    if file_len > 0 && file.get_char(0) == '/' {
        return file.to_owned();
    }
    let mut path = dir.to_owned();
    if dir_len > 0 && dir.get_char(dir_len - 1) != '/' {
        path.append("/");
        proof {
            reveal_strlit("/");
        }
    }
    path.append(file);
    path
}

/// The character of the standard base64 alphabet for the six-bit value `v`.
pub open spec fn base64_char(v: int) -> char {
    if v < 26 {
        (65 + v) as char
    } else if v < 52 {
        (97 + v - 26) as char
    } else if v < 62 {
        (48 + v - 52) as char
    } else if v == 62 {
        '+'
    } else {
        '/'
    }
}

/// The base64 encoding of `bytes` with the standard alphabet and `=`
/// padding (RFC 4648): each group of three bytes becomes four characters;
/// a last group of one or two bytes is padded to four with `=`.
pub open spec fn base64_standard(bytes: Seq<u8>) -> Seq<char>
    decreases bytes.len(),
{
    if bytes.len() == 0 {
        Seq::empty()
    } else if bytes.len() == 1 {
        let a = bytes[0] as int;
        seq![base64_char(a / 4), base64_char((a % 4) * 16), '=', '=']
    } else if bytes.len() == 2 {
        let a = bytes[0] as int;
        let b = bytes[1] as int;
        seq![base64_char(a / 4), base64_char((a % 4) * 16 + b / 16), base64_char((b % 16) * 4), '=']
    } else {
        let a = bytes[0] as int;
        let b = bytes[1] as int;
        let c = bytes[2] as int;
        seq![
            base64_char(a / 4),
            base64_char((a % 4) * 16 + b / 16),
            base64_char((b % 16) * 4 + c / 64),
            base64_char(c % 64),
        ] + base64_standard(bytes.subrange(3, bytes.len() as int))
    }
}

/// Encodes `bytes` with `base64::encode`, which uses the standard alphabet
/// with padding; the contract states that encoding (see [`base64_standard`]).
#[verifier::external_body]
fn base64_encode(bytes: &[u8]) -> (encoded: String)
    ensures
        encoded@ == base64_standard(bytes@),
{
    base64::encode(bytes)
}

/// The `user:password` text that Basic authentication encodes.
pub open spec fn credentials_text(user: Seq<char>, pass: Seq<char>) -> Seq<char> {
    user + seq![':'] + pass
}

/// The value of a Basic `Authorization` header whose credentials are encoded
/// as `encoded`.
pub open spec fn basic_header_text(encoded: Seq<char>) -> Seq<char> {
    seq!['B', 'a', 's', 'i', 'c', ' '] + encoded
}

/// The `Authorization` header that requests must carry for the given user
/// and password: none when the password is empty, else the Basic header of
/// the base64 encoding of the UTF-8 bytes of `user:pass`.
pub open spec fn expected_auth_header(user: Seq<char>, pass: Seq<char>) -> Option<Seq<char>> {
    if pass.len() == 0 {
        None
    } else {
        Some(basic_header_text(base64_standard(vstd::utf8::encode_utf8(credentials_text(user, pass)))))
    }
}

/// `user:pass`.
pub fn credentials(user: &str, pass: &str) -> (text: String)
    ensures
        text@ == credentials_text(user@, pass@),
{
    let mut text = user.to_owned();
    text.append(":");
    text.append(pass);
    proof {
        reveal_strlit(":");
    }
    text
}

/// The Basic `Authorization` header for credentials already encoded in base64.
pub fn basic_auth_header(encoded: &str) -> (header: String)
    ensures
        header@ == basic_header_text(encoded@),
{
    let mut header = "Basic ".to_owned();
    header.append(encoded);
    proof {
        reveal_strlit("Basic ");
    }
    header
}

/// The `Authorization` header that requests must carry (see
/// [`expected_auth_header`]).
pub fn auth_header_for(user: &str, pass: &str) -> (header: Option<String>)
    ensures
        match header {
            Some(h) => expected_auth_header(user@, pass@) == Some(h@),
            None => expected_auth_header(user@, pass@) is None,
        },
{
    if pass.is_empty() {
        None
    } else {
        let text = credentials(user, pass);
        let encoded = base64_encode(text.as_str().as_bytes());
        Some(basic_auth_header(encoded.as_str()))
    }
}

/// Joining keeps both parts whole. An absolute file is the path itself. A
/// relative file is appended to the directory, separated from it by exactly
/// one `/`: the path starts with the directory, and after the directory (and
/// the one `/` added when the directory is non-empty and does not end in
/// one) comes the whole file, whatever the lengths of both.
pub proof fn lemma_joined_path_keeps_dir_and_file(dir: Seq<char>, file: Seq<char>)
    ensures
        file.len() > 0 && file[0] == '/' ==> joined_path(dir, file) == file,
        !(file.len() > 0 && file[0] == '/') ==> {
            let path = joined_path(dir, file);
            let sep: int = if dir.len() > 0 && dir.last() != '/' { 1 } else { 0 };
            &&& path.len() == dir.len() + sep + file.len()
            &&& path.take(dir.len() as int) == dir
            &&& sep == 1 ==> path[dir.len() as int] == '/'
            &&& path.skip(dir.len() + sep) == file
        },
{
    if !(file.len() > 0 && file[0] == '/') {
        let path = joined_path(dir, file);
        if dir.len() > 0 && dir.last() != '/' {
            assert(path.take(dir.len() as int) =~= dir);
            assert(path.skip(dir.len() as int + 1) =~= file);
        } else {
            assert(path.take(dir.len() as int) =~= dir);
            assert(path.skip(dir.len() as int) =~= file);
        }
    }
}

/// The credentials hold the whole user, then one `:`, then the whole
/// password, with nothing cut or added.
pub proof fn lemma_credentials_hold_user_and_whole_password(user: Seq<char>, pass: Seq<char>)
    ensures
        credentials_text(user, pass).len() == user.len() + 1 + pass.len(),
        credentials_text(user, pass).take(user.len() as int) == user,
        credentials_text(user, pass)[user.len() as int] == ':',
        credentials_text(user, pass).skip(user.len() as int + 1) == pass,
{
    let t = credentials_text(user, pass);
    assert(t.take(user.len() as int) =~= user);
    assert(t.skip(user.len() as int + 1) =~= pass);
}

/// Two passwords that differ anywhere give different credentials for the
/// same user.
pub proof fn lemma_credentials_tell_passwords_apart(user: Seq<char>, p1: Seq<char>, p2: Seq<char>)
    requires
        p1 != p2,
    ensures
        credentials_text(user, p1) != credentials_text(user, p2),
{
    lemma_credentials_hold_user_and_whole_password(user, p1);
    lemma_credentials_hold_user_and_whole_password(user, p2);
}

/// The expected header carries the credentials of the whole password: for a
/// non-empty password it is `Basic ` followed by the base64 of the UTF-8
/// bytes of `user:pass`, and the text after `Basic ` decodes to exactly
/// those bytes.
pub proof fn lemma_expected_header_carries_whole_credentials(user: Seq<char>, pass: Seq<char>)
    requires
        pass.len() > 0,
    ensures
        expected_auth_header(user, pass) matches Some(header) && {
            let creds = vstd::utf8::encode_utf8(credentials_text(user, pass));
            &&& header.take(6) == seq!['B', 'a', 's', 'i', 'c', ' ']
            &&& base64_decode(header.skip(6)) == creds
        },
{
    let creds = vstd::utf8::encode_utf8(credentials_text(user, pass));
    let header = basic_header_text(base64_standard(creds));
    assert(header.take(6) =~= seq!['B', 'a', 's', 'i', 'c', ' ']);
    assert(header.skip(6) =~= base64_standard(creds));
    lemma_base64_round_trip(creds);
}

/// The six-bit value of a base64 character, or `0` for any other character.
pub open spec fn base64_value(c: char) -> int {
    if 'A' <= c <= 'Z' {
        c as int - 65
    } else if 'a' <= c <= 'z' {
        c as int - 97 + 26
    } else if '0' <= c <= '9' {
        c as int - 48 + 52
    } else if c == '+' {
        62
    } else if c == '/' {
        63
    } else {
        0
    }
}

/// Standard padded base64 read back into bytes: each group of four
/// characters gives three bytes, or fewer where it ends in `=`.
pub open spec fn base64_decode(text: Seq<char>) -> Seq<u8>
    decreases text.len(),
{
    if text.len() < 4 {
        Seq::empty()
    } else {
        let v0 = base64_value(text[0]);
        let v1 = base64_value(text[1]);
        let v2 = base64_value(text[2]);
        let v3 = base64_value(text[3]);
        let a = (v0 * 4 + v1 / 16) as u8;
        let b = ((v1 % 16) * 16 + v2 / 4) as u8;
        let c = ((v2 % 4) * 64 + v3) as u8;
        if text[2] == '=' {
            seq![a]
        } else if text[3] == '=' {
            seq![a, b]
        } else {
            seq![a, b, c] + base64_decode(text.subrange(4, text.len() as int))
        }
    }
}

proof fn lemma_base64_char_value(v: int)
    requires
        0 <= v < 64,
    ensures
        base64_value(base64_char(v)) == v,
        base64_char(v) != '=',
{
    if v < 26 {
        assert(base64_char(v) as int == 65 + v);
    } else if v < 52 {
        assert(base64_char(v) as int == 97 + v - 26);
    } else if v < 62 {
        assert(base64_char(v) as int == 48 + v - 52);
    }
}

proof fn lemma_base64_group_arith(a: int, b: int, c: int)
    requires
        0 <= a < 256,
        0 <= b < 256,
        0 <= c < 256,
    ensures
        0 <= a / 4 < 64,
        0 <= (a % 4) * 16 + b / 16 < 64,
        0 <= (b % 16) * 4 + c / 64 < 64,
        0 <= c % 64 < 64,
        (a / 4) * 4 + ((a % 4) * 16 + b / 16) / 16 == a,
        (((a % 4) * 16 + b / 16) % 16) * 16 + ((b % 16) * 4 + c / 64) / 4 == b,
        (((b % 16) * 4 + c / 64) % 4) * 64 + c % 64 == c,
{
    assert((a / 4) * 4 + ((a % 4) * 16 + b / 16) / 16 == a) by (nonlinear_arith)
        requires 0 <= a < 256, 0 <= b < 256;
    assert((((a % 4) * 16 + b / 16) % 16) * 16 + ((b % 16) * 4 + c / 64) / 4 == b) by (nonlinear_arith)
        requires 0 <= a < 256, 0 <= b < 256, 0 <= c < 256;
    assert((((b % 16) * 4 + c / 64) % 4) * 64 + c % 64 == c) by (nonlinear_arith)
        requires 0 <= b < 256, 0 <= c < 256;
    assert(0 <= (a % 4) * 16 + b / 16 < 64) by (nonlinear_arith)
        requires 0 <= a < 256, 0 <= b < 256;
    assert(0 <= (b % 16) * 4 + c / 64 < 64) by (nonlinear_arith)
        requires 0 <= b < 256, 0 <= c < 256;
}

/// The encoding is standard padded base64: four characters for every three
/// bytes or part of three (no padding group when the length is a multiple
/// of three), and decoding it gives back exactly the bytes encoded.
pub proof fn lemma_base64_round_trip(bytes: Seq<u8>)
    ensures
        base64_standard(bytes).len() == 4 * ((bytes.len() + 2) / 3),
        base64_decode(base64_standard(bytes)) == bytes,
    decreases bytes.len(),
{
    let e = base64_standard(bytes);
    if bytes.len() == 0 {
    } else {
        let a = bytes[0] as int;
        let b: int = if bytes.len() > 1 { bytes[1] as int } else { 0 };
        let c: int = if bytes.len() > 2 { bytes[2] as int } else { 0 };
        lemma_base64_group_arith(a, b, c);
        lemma_base64_char_value(a / 4);
        lemma_base64_char_value((a % 4) * 16 + b / 16);
        lemma_base64_char_value((b % 16) * 4 + c / 64);
        lemma_base64_char_value(c % 64);
        if bytes.len() == 1 {
            assert(base64_decode(e) =~= bytes);
        } else if bytes.len() == 2 {
            assert(base64_decode(e) =~= bytes);
        } else {
            let rest = bytes.subrange(3, bytes.len() as int);
            lemma_base64_round_trip(rest);
            assert(e.subrange(4, e.len() as int) =~= base64_standard(rest));
            assert(bytes =~= seq![bytes[0], bytes[1], bytes[2]] + rest);
            assert(base64_decode(e) =~= bytes);
        }
    }
}

/// The receiving half of a `crossbeam_channel` channel.
#[verifier::external_type_specification]
#[verifier::external_body]
#[verifier::reject_recursive_types(T)]
pub struct ExReceiver<T>(Receiver<T>);

/// Takes a message from the channel if one is waiting, with
/// `Receiver::try_recv`. Whether one is waiting depends on the sending
/// thread, so nothing is stated of the result.
#[verifier::external_body]
fn try_receive<T>(receiver: &Receiver<T>) -> (received: Option<T>) {
    match receiver.try_recv() {
        Ok(message) => Some(message),
        Err(_) => None,
    }
}

/// Another handle on the same shared value, with `Arc::clone`.
#[verifier::external_body]
fn share<T>(shared: &Arc<T>) -> (copy: Arc<T>)
    ensures
        copy == *shared,
{
    Arc::clone(shared)
}

/// A value that another thread sends once: either it is still awaited on the
/// channel, or it has arrived and is kept.
#[verifier::reject_recursive_types(T)]
pub enum Resolution<T> {
    Waiting(Receiver<T>),
    Resolved(Arc<T>),
}

/// The state of the [`InitInfo`] that the RPC thread sends after `init`.
pub type InitInfoState = Resolution<InitInfo>;

impl<T> Resolution<T> {
    /// The value that has arrived, if any.
    pub open spec fn resolved(self) -> Option<T> {
        match self {
            Resolution::Resolved(value) => Some(*value),
            Resolution::Waiting(_) => None,
        }
    }

    /// The value kept after `received` comes off the channel: a value that
    /// has already arrived is kept; otherwise what was received.
    pub open spec fn resolved_after(self, received: Option<T>) -> Option<T> {
        match self {
            Resolution::Resolved(value) => Some(*value),
            Resolution::Waiting(_) => received,
        }
    }

    /// A state that awaits the value on `receiver`.
    pub fn new(receiver: Receiver<T>) -> (state: Resolution<T>)
        ensures
            state == Resolution::Waiting(receiver),
    {
        Resolution::Waiting(receiver)
    }

    /// Takes in what was received from the channel (if anything) and returns
    /// the value, if it has arrived by now. A value that has arrived is kept
    /// for good: what is received afterwards is ignored.
    pub fn resolve_with(&mut self, received: Option<T>) -> (value: Option<Arc<T>>)
        ensures
            final(self).resolved() == old(self).resolved_after(received),
            old(self).resolved() is Some ==> *final(self) == *old(self),
            old(self).resolved() is None && received is None ==> *final(self) == *old(self),
            match value {
                Some(v) => final(self).resolved() == Some(*v),
                None => final(self).resolved() is None,
            },
    {
        match self {
            Resolution::Resolved(value) => Some(share(value)),
            Resolution::Waiting(_) => match received {
                Some(v) => {
                    let value = Arc::new(v);
                    *self = Resolution::Resolved(share(&value));
                    Some(value)
                },
                None => None,
            },
        }
    }

    /// Checks the channel, if the value has not arrived yet, and returns the
    /// value if it has arrived by now. Once a value has arrived it is
    /// returned on every later call.
    pub fn poll(&mut self) -> (value: Option<Arc<T>>)
        ensures
            old(self).resolved() is Some ==> *final(self) == *old(self) && value is Some,
            old(self).resolved() is None ==> (*final(self) == *old(self) && value is None)
                || final(self).resolved() is Some,
            match value {
                Some(v) => final(self).resolved() == Some(*v),
                None => final(self).resolved() is None,
            },
    {
        let received = match self {
            Resolution::Waiting(receiver) => try_receive(receiver),
            Resolution::Resolved(_) => None,
        };
        self.resolve_with(received)
    }
}

/// The value kept after a series of receipts from the channel.
pub open spec fn resolved_after_all<T>(kept: Option<T>, receipts: Seq<Option<T>>) -> Option<T>
    decreases receipts.len(),
{
    if receipts.len() == 0 {
        kept
    } else {
        let before = resolved_after_all(kept, receipts.drop_last());
        match before {
            Some(v) => Some(v),
            None => receipts.last(),
        }
    }
}

/// Once a value has arrived it is never replaced: whatever is received
/// afterwards, the value kept is the one that arrived first.
pub proof fn lemma_first_arrival_is_kept<T>(first: T, receipts: Seq<Option<T>>)
    ensures
        resolved_after_all(Some(first), receipts) == Some(first),
    decreases receipts.len(),
{
    if receipts.len() > 0 {
        lemma_first_arrival_is_kept(first, receipts.drop_last());
    }
}

/// Taking receipts one at a time with [`Resolution::resolve_with`] keeps
/// what [`resolved_after_all`] describes.
pub proof fn lemma_resolve_step<T>(state: Resolution<T>, receipts: Seq<Option<T>>, received: Option<T>)
    ensures
        resolved_after_all(state.resolved(), receipts.push(received)) == match resolved_after_all(
            state.resolved(),
            receipts,
        ) {
            Some(v) => Some(v),
            None => received,
        },
{
    assert(receipts.push(received).drop_last() =~= receipts);
}

} // verus!
