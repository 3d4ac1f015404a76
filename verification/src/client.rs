use vstd::prelude::*;
use vstd::slice::slice_subrange;

use crate::bytes;
use crate::config::Config;
use crate::text;
use crate::types::commands;
use crate::types::{
    ClientData, ClientView, GameID, GameInfo, JoinRequest, Protocol, LOGIN_DATA_MINSIZE, MAX_CONTROLLERS_PER_GAME, MAX_NICK_LEN,
    MAX_TOTAL_CONTROLLERS_DATA_SIZE,
};

pub mod digest;
pub mod laws;
pub mod login_laws;
pub mod reader;
pub mod writer;

verus! {

/// What a client says of itself and its game when it connects.
#[derive(Debug)]
pub struct LoginData {
    pub game_id: GameID,
    pub password: [u8; 16],
    pub protocol: Protocol,
    pub total_controllers: usize,
    pub controller_data_size: [u8; 16],
    pub controller_type: [u8; 16],
    pub local_players: usize,
    pub nickname: Vec<u8>,
    pub emu_id: [u8; 64],
}

/// The sum of some bytes.
pub open spec fn byte_sum(s: Seq<u8>) -> nat
    decreases s.len(),
{
    if s.len() == 0 {
        0
    } else {
        byte_sum(s.drop_last()) + s.last() as nat
    }
}

/// The protocol that a login names, if there is one of that number.
pub open spec fn protocol_of(buf: Seq<u8>) -> Option<Protocol> {
    if buf[32] == 1 {
        Some(Protocol::V1)
    } else if buf[32] == 2 {
        Some(Protocol::V2)
    } else if buf[32] == 3 {
        Some(Protocol::V3)
    } else {
        None
    }
}

/// Why a login is not acceptable for its protocol or its number of controllers, if it is not.
pub open spec fn header_error(buf: Seq<u8>) -> Option<Seq<char>> {
    match protocol_of(buf) {
        None => Some("Protocol "@ + text::decimal(buf[32] as nat) + " not supported."@),
        Some(protocol) => if protocol != Protocol::V3 && buf[33] > 8 {
            Some(
                "That number of controllers("@ + text::decimal(buf[33] as nat)
                    + ") isn't supported with that protocol version."@,
            )
        } else if buf[33] > MAX_CONTROLLERS_PER_GAME {
            Some(
                "That number of controllers("@ + text::decimal(buf[33] as nat)
                    + ") isn't supported."@,
            )
        } else {
            None
        },
    }
}

/// Whether the controllers of a login take more bytes than a frame may have. Only the newest
/// protocol lets the client choose their sizes.
pub open spec fn oversized(buf: Seq<u8>) -> bool {
    protocol_of(buf) == Some(Protocol::V3) && byte_sum(buf.subrange(48, 64))
        > MAX_TOTAL_CONTROLLERS_DATA_SIZE
}

/// Why a login is not acceptable, if it is not.
pub open spec fn login_error(buf: Seq<u8>) -> Option<Seq<char>> {
    if header_error(buf) is Some {
        header_error(buf)
    } else if oversized(buf) {
        Some("Exceeded MaxTotalControllersDataSize"@)
    } else {
        None
    }
}

/// How many bytes of a login have to be there for a verdict on it.
pub open spec fn bytes_needed(buf: Seq<u8>) -> nat {
    if protocol_of(buf) is None {
        33
    } else if header_error(buf) is Some {
        34
    } else if oversized(buf) {
        96
    } else {
        LOGIN_DATA_MINSIZE as nat
    }
}

/// The length that a login gives for the name of its emulator.
pub open spec fn emu_id_len(buf: Seq<u8>) -> nat {
    bytes::le_value(buf.subrange(36, 40))
}

/// The length of the nickname in a login: what is left beside the emulator's name, up to a limit.
pub open spec fn nickname_len(buf: Seq<u8>) -> nat {
    let rest = buf.len() - LOGIN_DATA_MINSIZE - emu_id_len(buf);
    if rest < 0 {
        0
    } else if rest > MAX_NICK_LEN {
        MAX_NICK_LEN as nat
    } else {
        rest as nat
    }
}

/// Whether a login carries the name of its emulator.
pub open spec fn has_emu_id(buf: Seq<u8>) -> bool {
    &&& protocol_of(buf) == Some(Protocol::V3)
    &&& 0 < emu_id_len(buf) <= 64
    &&& LOGIN_DATA_MINSIZE + nickname_len(buf) + emu_id_len(buf) <= buf.len()
}

/// A byte of text with a space in place of a control character; zero stays.
pub open spec fn printable(b: u8) -> u8 {
    if 0 < b < 0x20 {
        0x20
    } else {
        b
    }
}

/// The name of the emulator in a login, with zeros behind it.
pub open spec fn emu_id_of(buf: Seq<u8>) -> Seq<u8> {
    Seq::new(
        64,
        |i: int|
            if has_emu_id(buf) && i < emu_id_len(buf) {
                printable(buf[LOGIN_DATA_MINSIZE + nickname_len(buf) + i])
            } else {
                0
            },
    )
}

/// Sixteen bytes of a login that only the newest protocol has; they are all 1 in the others.
pub open spec fn v3_field(buf: Seq<u8>, from: int) -> Seq<u8> {
    if protocol_of(buf) == Some(Protocol::V3) {
        buf.subrange(from, from + 16)
    } else {
        Seq::new(16, |i: int| 1u8)
    }
}

/// Whether `login` is what the bytes `buf` say.
pub open spec fn says(buf: Seq<u8>, login: LoginData) -> bool {
    &&& login.game_id@ == buf.subrange(0, 16)
    &&& login.password@ == buf.subrange(16, 32)
    &&& Some(login.protocol) == protocol_of(buf)
    &&& login.total_controllers == buf[33]
    &&& login.controller_data_size@ == v3_field(buf, 48)
    &&& login.controller_type@ == v3_field(buf, 80)
    &&& login.local_players == buf[96]
    &&& login.nickname@ == buf.subrange(
        LOGIN_DATA_MINSIZE as int,
        LOGIN_DATA_MINSIZE + nickname_len(buf),
    )
    &&& login.emu_id@ == emu_id_of(buf)
}

pub(crate) proof fn lemma_byte_sum_bound(s: Seq<u8>)
    ensures
        byte_sum(s) <= 255 * s.len(),
    decreases s.len(),
{
    if s.len() > 0 {
        lemma_byte_sum_bound(s.drop_last());
    }
}

/// The sum of some bytes.
pub(crate) fn sum_bytes(s: &[u8]) -> (r: usize)
    requires
        s@.len() <= 16,
    ensures
        r == byte_sum(s@),
{
    let mut sum: usize = 0;
    let mut i: usize = 0;
    while i < s.len()
        invariant
            i <= s@.len() <= 16,
            sum <= 255 * i,
            sum == byte_sum(s@.take(i as int)),
        decreases s@.len() - i,
    {
        assert(s@.take(i + 1).drop_last() =~= s@.take(i as int));
        sum = sum + s[i] as usize;
        i = i + 1;
    }
    assert(s@.take(i as int) =~= s@);
    sum
}

/// Parse login info into a struct, and verify its integrity.
pub fn parse(buf: &[u8]) -> (r: Result<LoginData, String>)
    requires
        buf@.len() >= bytes_needed(buf@),
    ensures
        match r {
            Ok(login) => login_error(buf@) is None && says(buf@, login),
            Err(e) => login_error(buf@) == Some(e@),
        },
{
    let protocol: Protocol = match buf[32] {
        1 => Protocol::V1,
        2 => Protocol::V2,
        3 => Protocol::V3,
        p => return Err(text::with_number("Protocol ", p as usize, " not supported.")),
    };
    let total_controllers: usize = buf[33] as usize;
    if protocol != Protocol::V3 && total_controllers > 8 {
        return Err(
            text::with_number(
                "That number of controllers(",
                total_controllers,
                ") isn't supported with that protocol version.",
            ),
        );
    }
    if total_controllers > MAX_CONTROLLERS_PER_GAME {
        return Err(
            text::with_number(
                "That number of controllers(",
                total_controllers,
                ") isn't supported.",
            ),
        );
    }
    let password: [u8; 16] = bytes::sixteen(buf, 16);
    let mut controller_data_size: [u8; 16] = [1; 16];
    let mut controller_type: [u8; 16] = [1; 16];
    assert(controller_data_size@ =~= Seq::new(16, |i: int| 1u8));
    if protocol == Protocol::V3 {
        controller_data_size = bytes::sixteen(buf, 48);
        controller_type = bytes::sixteen(buf, 80);
        if MAX_TOTAL_CONTROLLERS_DATA_SIZE < sum_bytes(controller_data_size.as_slice()) {
            return Err("Exceeded MaxTotalControllersDataSize".to_string());
        }
    }
    let game_id: GameID = bytes::sixteen(buf, 0);
    let local_players: usize = buf[96] as usize;
    let emu_id_len: usize = bytes::from_le(slice_subrange(buf, 36, 40)) as usize;
    let rest: usize = buf.len().saturating_sub(LOGIN_DATA_MINSIZE.saturating_add(emu_id_len));
    let nickname_len: usize = if rest > MAX_NICK_LEN {
        MAX_NICK_LEN
    } else {
        rest
    };
    let mut emu_id: [u8; 64] = [0; 64];
    if protocol == Protocol::V3 && emu_id_len > 0 && emu_id_len <= 64 && LOGIN_DATA_MINSIZE
        + nickname_len + emu_id_len <= buf.len() {
        let mut i: usize = 0;
        while i < emu_id_len
            invariant
                i <= emu_id_len <= 64,
                LOGIN_DATA_MINSIZE + nickname_len + emu_id_len <= buf.len(),
                forall|j: int|
                    0 <= j < i ==> #[trigger] emu_id@[j] == printable(
                        buf@[LOGIN_DATA_MINSIZE + nickname_len + j],
                    ),
                forall|j: int| i <= j < 64 ==> #[trigger] emu_id@[j] == 0,
            decreases emu_id_len - i,
        {
            let c: u8 = buf[LOGIN_DATA_MINSIZE + nickname_len + i];
            emu_id[i] = if c > 0 && c < 0x20 {
                0x20
            } else {
                c
            };
            i = i + 1;
        }
    }
    assert(emu_id@ =~= emu_id_of(buf@));
    let nickname: Vec<u8> = bytes::copy_range(
        buf,
        LOGIN_DATA_MINSIZE,
        LOGIN_DATA_MINSIZE + nickname_len,
    );
    Ok(
        LoginData {
            game_id,
            password,
            protocol,
            total_controllers,
            controller_data_size,
            controller_type,
            local_players,
            nickname,
            emu_id,
        },
    )
}

/// How many bytes a login may have beyond its fixed part and a nickname.
pub const MAX_LOGIN_EXTRA: usize = 8192;

/// Whether a login of `n` bytes is read at all.
pub open spec fn login_len_ok(n: nat) -> bool {
    LOGIN_DATA_MINSIZE <= n <= LOGIN_DATA_MINSIZE + MAX_NICK_LEN + MAX_LOGIN_EXTRA
}

/// The length of a login, from the four bytes before it.
pub fn login_length(prefix: &[u8; 4]) -> (r: Result<usize, String>)
    ensures
        match r {
            Ok(n) => n == bytes::le_value(prefix@) && login_len_ok(n as nat),
            Err(e) => !login_len_ok(bytes::le_value(prefix@)) && e@ == "Login len("@
                + text::decimal(bytes::le_value(prefix@)) + ") out of range."@,
        },
{
    let n: usize = bytes::from_le(prefix.as_slice()) as usize;
    if n < LOGIN_DATA_MINSIZE || n > LOGIN_DATA_MINSIZE + MAX_NICK_LEN + MAX_LOGIN_EXTRA {
        return Err(text::with_number("Login len(", n, ") out of range."));
    }
    Ok(n)
}

/// The header that goes before what a command carries: a number, room for the rest of a frame of
/// `n` bytes, and the command's code.
pub open spec fn header(n: nat, number: nat, cmd: u8) -> Seq<u8> {
    bytes::le_bytes(number) + bytes::zeros((n - 4) as nat) + seq![cmd]
}

/// Makes `cmd_buf` the header of a text from nobody, and returns the text in the form in which
/// it follows: the length of the speaker's name, which is empty, before the text itself.
pub fn connect_error(cmd_buf: &mut Vec<u8>, text: &str) -> (data: Vec<u8>)
    requires
        old(cmd_buf)@.len() >= 4,
    ensures
        final(cmd_buf)@ == bytes::le_bytes(vstd::utf8::encode_utf8(text@).len()) + old(
            cmd_buf,
        )@.update(old(cmd_buf)@.len() - 1, commands::TEXT).skip(4),
        data@ == bytes::zeros(4) + vstd::utf8::encode_utf8(text@),
{
    let body: &[u8] = text.as_bytes();
    let last: usize = cmd_buf.len() - 1;
    cmd_buf[last] = commands::TEXT;
    let mut data: Vec<u8> = bytes::zero_vec(4);
    bytes::append_bytes(&mut data, body);
    set_number(cmd_buf, body.len());
    data
}

/// Writes a number over the first four bytes of a header.
pub(crate) fn set_number(cmd_buf: &mut Vec<u8>, n: usize)
    requires
        old(cmd_buf)@.len() >= 4,
    ensures
        final(cmd_buf)@ == bytes::le_bytes(n as nat) + old(cmd_buf)@.skip(4),
{
    let number: [u8; 4] = bytes::to_le(n);
    cmd_buf[0] = number[0];
    cmd_buf[1] = number[1];
    cmd_buf[2] = number[2];
    cmd_buf[3] = number[3];
    assert(cmd_buf@ =~= bytes::le_bytes(n as nat) + old(cmd_buf)@.skip(4));
}

/// What a client is sent that is turned away: a header of `n` bytes and its code, then a text.
pub fn refusal(n: usize, reason: &str) -> (r: (Vec<u8>, Vec<u8>))
    requires
        4 <= n < usize::MAX,
    ensures
        r.0@ == header(n as nat, vstd::utf8::encode_utf8(reason@).len(), commands::TEXT),
        r.1@ == bytes::zeros(4) + vstd::utf8::encode_utf8(reason@),
{
    let mut cmd_buf: Vec<u8> = bytes::zero_vec(n + 1);
    let data: Vec<u8> = connect_error(&mut cmd_buf, reason);
    assert(cmd_buf@ =~= header(
        n as nat,
        vstd::utf8::encode_utf8(reason@).len(),
        commands::TEXT,
    ));
    (cmd_buf, data)
}

/// The size of a frame of the game, but at least the size of a number.
pub open spec fn buffer_len(sizes: Seq<u8>, total_controllers: nat) -> nat {
    let sum = byte_sum(sizes.take(total_controllers as int));
    if sum < 4 {
        4
    } else {
        sum
    }
}

impl LoginData {
    /// How many bytes a header to this client has before its code.
    pub fn controller_buffer_len(&self) -> (r: usize)
        requires
            self.total_controllers <= MAX_CONTROLLERS_PER_GAME,
        ensures
            r == buffer_len(self.controller_data_size@, self.total_controllers as nat),
    {
        let used: &[u8] = slice_subrange(
            self.controller_data_size.as_slice(),
            0,
            self.total_controllers,
        );
        assert(used@ =~= self.controller_data_size@.take(self.total_controllers as int));
        let sum: usize = sum_bytes(used);
        if sum < 4 {
            4
        } else {
            sum
        }
    }

    /// The request to join that this login amounts to.
    pub fn into_request(self) -> (r: JoinRequest)
        requires
            self.total_controllers <= MAX_CONTROLLERS_PER_GAME,
        ensures
            r.game_id == self.game_id,
            r.game_info == (GameInfo {
                protocol: self.protocol,
                emu_id: self.emu_id,
                total_controllers: self.total_controllers,
                controller_type: self.controller_type,
                controller_data_size: self.controller_data_size,
            }),
            r.client_data@ == (ClientView {
                id: 0,
                dead: false,
                nickname: self.nickname@,
                controller_buffer: bytes::zeros(
                    buffer_len(self.controller_data_size@, self.total_controllers as nat),
                ),
            }),
            r.local_players == self.local_players,
    {
        let controller_buffer: Vec<u8> = bytes::zero_vec(self.controller_buffer_len());
        JoinRequest {
            game_id: self.game_id,
            game_info: GameInfo {
                protocol: self.protocol,
                emu_id: self.emu_id,
                total_controllers: self.total_controllers,
                controller_type: self.controller_type,
                controller_data_size: self.controller_data_size,
            },
            client_data: ClientData {
                id: 0,
                dead: false,
                nickname: self.nickname,
                controller_buffer,
            },
            local_players: self.local_players,
        }
    }
}

/// What becomes of a login.
#[derive(Debug)]
pub enum LoginOutcome {
    /// It makes no sense; the connection is closed without a word.
    Malformed(String),
    /// The client is sent `header` and `data`, and turned away for the reason `error`.
    Refused { error: String, header: Vec<u8>, data: Vec<u8> },
    /// The room of the game is asked to take the client in. Headers to the client have
    /// `buffer_len` bytes before their code.
    Join { request: JoinRequest, buffer_len: usize },
}

/// Whether `password` is enough to be let in.
pub open spec fn lets_in(config: Config, password: Seq<u8>) -> bool {
    config.password matches Some(p) ==> p@ == password
}

/// How many bytes a header has before its code, for the client whose login is `buf`.
pub open spec fn login_buffer_len(buf: Seq<u8>) -> nat {
    buffer_len(v3_field(buf, 48), buf[33] as nat)
}

/// Whether `request` is what the login `buf` asks for.
pub open spec fn asks(buf: Seq<u8>, request: JoinRequest) -> bool {
    &&& request.game_id@ == buf.subrange(0, 16)
    &&& Some(request.game_info.protocol) == protocol_of(buf)
    &&& request.game_info.emu_id@ == emu_id_of(buf)
    &&& request.game_info.total_controllers == buf[33]
    &&& request.game_info.controller_type@ == v3_field(buf, 80)
    &&& request.game_info.controller_data_size@ == v3_field(buf, 48)
    &&& request.client_data@ == (ClientView {
        id: 0,
        dead: false,
        nickname: buf.subrange(
            LOGIN_DATA_MINSIZE as int,
            LOGIN_DATA_MINSIZE + nickname_len(buf),
        ),
        controller_buffer: bytes::zeros(login_buffer_len(buf)),
    })
    &&& request.local_players == buf[96]
}

/// Whether a password is the one that the server asks for, if it asks for one.
fn password_ok(config: &Config, password: &[u8; 16]) -> (r: bool)
    ensures
        r == lets_in(*config, password@),
{
    match &config.password {
        Some(p) => bytes::same_bytes(p.as_slice(), password.as_slice()),
        None => true,
    }
}

/// Decides on a login: whether it makes sense, and whether its password is right.
pub fn log_in(buf: &[u8], config: &Config) -> (r: LoginOutcome)
    requires
        buf@.len() >= bytes_needed(buf@),
    ensures
        match r {
            LoginOutcome::Malformed(e) => login_error(buf@) == Some(e@),
            LoginOutcome::Refused { error, header: h, data } => {
                &&& login_error(buf@) is None
                &&& !lets_in(*config, buf@.subrange(16, 32))
                &&& error@ == "Invalid server password."@
                &&& h@ == header(
                    login_buffer_len(buf@),
                    vstd::utf8::encode_utf8("Invalid server password."@).len(),
                    commands::TEXT,
                )
                &&& data@ == bytes::zeros(4) + vstd::utf8::encode_utf8(
                    "Invalid server password."@,
                )
            },
            LoginOutcome::Join { request, buffer_len: n } => {
                &&& login_error(buf@) is None
                &&& lets_in(*config, buf@.subrange(16, 32))
                &&& asks(buf@, request)
                &&& n == login_buffer_len(buf@)
            },
        },
{
    match parse(buf) {
        Err(e) => LoginOutcome::Malformed(e),
        Ok(login) => {
            let n: usize = login.controller_buffer_len();
            proof {
                lemma_byte_sum_bound(
                    login.controller_data_size@.take(login.total_controllers as int),
                );
            }
            if !password_ok(config, &login.password) {
                let error: &str = "Invalid server password.";
                let (header, data) = refusal(n, error);
                return LoginOutcome::Refused { error: error.to_string(), header, data };
            }
            LoginOutcome::Join { request: login.into_request(), buffer_len: n }
        },
    }
}

} // verus!
