use vstd::prelude::*;

use crate::bytes;
use crate::client;
use crate::client::{LoginData, LoginOutcome};
use crate::config::Config;
use crate::text;
use crate::types::{JoinRequest, Protocol};

verus! {

/// Sums add up: that of two runs of bytes together is the sum of both, that of one byte is the
/// byte.
pub proof fn law_byte_sum_adds_up(a: Seq<u8>, b: Seq<u8>, x: u8)
    ensures
        client::byte_sum(Seq::<u8>::empty()) == 0,
        client::byte_sum(seq![x]) == x,
        client::byte_sum(a + b) == client::byte_sum(a) + client::byte_sum(b),
    decreases b.len(),
{
    assert(seq![x].drop_last() =~= Seq::<u8>::empty());
    if b.len() == 0 {
        assert(a + b =~= a);
    } else {
        law_byte_sum_adds_up(a, b.drop_last(), x);
        assert((a + b).drop_last() =~= a + b.drop_last());
    }
}

/// A login is read exactly where its length is from 97 to 8439.
pub proof fn law_login_lengths(n: nat)
    ensures
        client::login_len_ok(n) <==> 97 <= n <= 8439,
{
}

/// Whether a login is one that is accepted.
pub open spec fn acceptable(buf: Seq<u8>) -> bool {
    &&& 1 <= buf[32] <= 3
    &&& buf[33] <= 16
    &&& buf[32] != 3 ==> buf[33] <= 8
    &&& buf[32] == 3 ==> client::byte_sum(buf.subrange(48, 64)) <= 512
}

/// A login is accepted exactly where its protocol is 1, 2 or 3, it has at most 16 controllers, or
/// 8 before protocol 3, and in protocol 3 its sixteen sizes add up to at most 512.
pub proof fn law_login_is_accepted_exactly(buf: Seq<u8>)
    ensures
        client::login_error(buf) is None <==> acceptable(buf),
        client::bytes_needed(buf) <= 97,
{
}

/// A login that is not accepted is told the first of these that is wrong with it: its protocol,
/// its number of controllers, its sizes.
pub proof fn law_login_error_names_the_fault(buf: Seq<u8>)
    ensures
        !(1 <= buf[32] <= 3) ==> client::login_error(buf) == Some(
            "Protocol "@ + text::decimal(buf[32] as nat) + " not supported."@,
        ),
        1 <= buf[32] <= 2 && buf[33] > 8 ==> client::login_error(buf) == Some(
            "That number of controllers("@ + text::decimal(buf[33] as nat)
                + ") isn't supported with that protocol version."@,
        ),
        buf[32] == 3 && buf[33] > 16 ==> client::login_error(buf) == Some(
            "That number of controllers("@ + text::decimal(buf[33] as nat) + ") isn't supported."@,
        ),
        buf[32] == 3 && buf[33] <= 16 && client::byte_sum(buf.subrange(48, 64)) > 512
            ==> client::login_error(buf) == Some("Exceeded MaxTotalControllersDataSize"@),
{
}

/// Where the parts of a login with a fixed place are, byte by byte.
pub proof fn law_login_fixed_fields(buf: Seq<u8>, login: LoginData, i: int)
    requires
        buf.len() >= 97,
        client::says(buf, login),
        0 <= i < 16,
    ensures
        login.game_id@[i] == buf[i],
        login.password@[i] == buf[16 + i],
        buf[32] == 1 <==> login.protocol == Protocol::V1,
        buf[32] == 2 <==> login.protocol == Protocol::V2,
        buf[32] == 3 <==> login.protocol == Protocol::V3,
        login.total_controllers == buf[33],
        login.local_players == buf[96],
        buf[32] == 3 ==> login.controller_data_size@[i] == buf[48 + i],
        buf[32] == 3 ==> login.controller_type@[i] == buf[80 + i],
        buf[32] != 3 ==> login.controller_data_size@[i] == 1,
        buf[32] != 3 ==> login.controller_type@[i] == 1,
{
    assert(buf.subrange(0, 16)[i] == buf[i]);
    assert(buf.subrange(16, 32)[i] == buf[16 + i]);
    assert(buf.subrange(48, 64)[i] == buf[48 + i]);
    assert(buf.subrange(80, 96)[i] == buf[80 + i]);
}

/// Whether the fixed part of a login gives `n` as the length of the emulator's name.
pub open spec fn announces(fixed: Seq<u8>, n: int) -> bool {
    &&& fixed.len() == 97
    &&& fixed[36] + 256 * fixed[37] + 65536 * fixed[38] + 16777216 * fixed[39] == n
}

/// Whether `emu_id` is the name `name` with spaces for control characters and zeros behind it.
pub open spec fn shows(emu_id: Seq<u8>, name: Seq<u8>) -> bool {
    &&& emu_id.len() == 64
    &&& forall|j: int|
        0 <= j < 64 ==> #[trigger] emu_id[j] == if j < name.len() {
            if 1 <= name[j] <= 31 {
                32u8
            } else {
                name[j]
            }
        } else {
            0
        }
}

proof fn lemma_announced(buf: Seq<u8>, fixed: Seq<u8>, rest: Seq<u8>, n: int)
    requires
        buf == fixed + rest,
        announces(fixed, n),
    ensures
        client::emu_id_len(buf) == n,
        buf[32] == fixed[32],
{
    let field = buf.subrange(36, 40);
    assert(field[0] == fixed[36] && field[1] == fixed[37] && field[2] == fixed[38] && field[3]
        == fixed[39]);
}

/// A login whose fixed part is followed by a nickname of up to 150 bytes and an emulator's name of
/// the length that it announces says exactly these two. Only protocol 3 has the second, and only
/// up to 64 bytes.
pub proof fn law_login_says_nickname_and_emulator(
    fixed: Seq<u8>,
    nickname: Seq<u8>,
    emulator: Seq<u8>,
    login: LoginData,
)
    requires
        announces(fixed, emulator.len() as int),
        nickname.len() <= 150,
        client::says(fixed + nickname + emulator, login),
    ensures
        login.nickname@ == nickname,
        fixed[32] == 3 && emulator.len() <= 64 ==> shows(login.emu_id@, emulator),
        fixed[32] != 3 || emulator.len() > 64 ==> shows(login.emu_id@, Seq::empty()),
{
    let buf = fixed + nickname + emulator;
    assert(buf =~= fixed + (nickname + emulator));
    lemma_announced(buf, fixed, nickname + emulator, emulator.len() as int);
    assert(client::nickname_len(buf) == nickname.len());
    assert(buf.subrange(97, 97 + nickname.len() as int) =~= nickname);
    assert forall|j: int| 0 <= j < emulator.len() implies #[trigger] emulator[j] == buf[97
        + nickname.len() + j] by {}
    assert(login.emu_id@ == client::emu_id_of(buf));
}

/// Of a login with more than 150 bytes beside the emulator's name, the first 150 are the nickname,
/// and the emulator's name follows them.
pub proof fn law_long_nickname_is_cut(
    fixed: Seq<u8>,
    nickname: Seq<u8>,
    emulator: Seq<u8>,
    more: Seq<u8>,
    login: LoginData,
)
    requires
        announces(fixed, emulator.len() as int),
        nickname.len() == 150,
        client::says(fixed + nickname + emulator + more, login),
    ensures
        login.nickname@ == nickname,
        fixed[32] == 3 && emulator.len() <= 64 ==> shows(login.emu_id@, emulator),
        fixed[32] != 3 || emulator.len() > 64 ==> shows(login.emu_id@, Seq::empty()),
{
    let buf = fixed + nickname + emulator + more;
    assert(buf =~= fixed + (nickname + emulator + more));
    lemma_announced(buf, fixed, nickname + emulator + more, emulator.len() as int);
    assert(client::nickname_len(buf) == 150);
    assert(buf.subrange(97, 247) =~= nickname);
    assert forall|j: int| 0 <= j < emulator.len() implies #[trigger] emulator[j] == buf[97 + 150
        + j] by {}
    assert(login.emu_id@ == client::emu_id_of(buf));
}

/// A login that announces more than it has behind its fixed part says neither a nickname nor an
/// emulator.
pub proof fn law_overlong_announcement_leaves_nothing(
    fixed: Seq<u8>,
    rest: Seq<u8>,
    n: int,
    login: LoginData,
)
    requires
        announces(fixed, n),
        n > rest.len(),
        client::says(fixed + rest, login),
    ensures
        login.nickname@.len() == 0,
        shows(login.emu_id@, Seq::empty()),
{
    let buf = fixed + rest;
    lemma_announced(buf, fixed, rest, n);
    assert(client::nickname_len(buf) == 0);
    assert(login.emu_id@ == client::emu_id_of(buf));
}

/// A request to join carries what the login said, for a client that is new and alive, with a
/// buffer of zeros.
pub proof fn law_request_carries_login(buf: Seq<u8>, login: LoginData, request: JoinRequest)
    requires
        buf.len() >= 97,
        client::says(buf, login),
        client::asks(buf, request),
    ensures
        request.game_id@ == login.game_id@,
        request.game_info.protocol == login.protocol,
        request.game_info.emu_id@ == login.emu_id@,
        request.game_info.total_controllers == login.total_controllers,
        request.game_info.controller_type@ == login.controller_type@,
        request.game_info.controller_data_size@ == login.controller_data_size@,
        request.local_players == login.local_players,
        request.client_data.nickname@ == login.nickname@,
        request.client_data.id == 0,
        !request.client_data.dead,
        request.client_data.controller_buffer@.len() == client::login_buffer_len(buf),
        forall|j: int|
            0 <= j < request.client_data.controller_buffer@.len()
                ==> #[trigger] request.client_data.controller_buffer@[j] == 0,
{
    assert(request.client_data@.nickname == login.nickname@);
}

/// Nothing of a login is lost on the way to a request, and the client gets a buffer of zeros as
/// long as a header to it is before its code.
pub proof fn law_login_becomes_request(login: LoginData, n: usize, r: JoinRequest, j: int)
    requires
        call_ensures(LoginData::into_request, (login,), r),
        call_ensures(LoginData::controller_buffer_len, (&login,), n),
    ensures
        r.game_id == login.game_id,
        r.game_info.protocol == login.protocol,
        r.game_info.emu_id == login.emu_id,
        r.game_info.total_controllers == login.total_controllers,
        r.game_info.controller_type == login.controller_type,
        r.game_info.controller_data_size == login.controller_data_size,
        r.local_players == login.local_players,
        r.client_data.nickname@ == login.nickname@,
        r.client_data.controller_buffer@.len() == n,
        0 <= j < n ==> r.client_data.controller_buffer@[j] == 0,
        !r.client_data.dead,
{
    assert(r.client_data@.controller_buffer == r.client_data.controller_buffer@);
    assert(r.client_data@.nickname == login.nickname@);
}

/// The bytes before the code of a header are the larger of four and the sum of the sizes in use.
pub proof fn law_buffer_is_large_enough(sizes: Seq<u8>, n: nat, buf: Seq<u8>)
    ensures
        ({
            let sum = client::byte_sum(sizes.take(n as int));
            let r = client::buffer_len(sizes, n);
            r >= 4 && r >= sum && (r == 4 || r == sum)
        }),
        buf.len() >= 97 && buf[32] == 3 && buf[33] <= 16 ==> client::login_buffer_len(buf)
            == client::buffer_len(buf.subrange(48, 64), buf[33] as nat),
        buf.len() >= 97 && 1 <= buf[32] <= 2 && 4 <= buf[33] <= 8 ==> client::login_buffer_len(buf)
            == buf[33],
        buf.len() >= 97 && 1 <= buf[32] <= 2 && buf[33] < 4 ==> client::login_buffer_len(buf) == 4,
{
    if 1 <= buf[32] <= 2 && buf[33] <= 8 {
        let ones = client::v3_field(buf, 48).take(buf[33] as int);
        client::laws::lemma_sum_of_ones(ones);
    }
}

/// A server without a password lets everybody in; one with a password lets in exactly those who
/// give all of its bytes.
pub proof fn law_password_decides(config: Config, given: Seq<u8>)
    requires
        given.len() == 16,
    ensures
        config.password is None ==> client::lets_in(config, given),
        config.password matches Some(p) ==> (client::lets_in(config, given) <==> forall|i: int|
            0 <= i < 16 ==> #[trigger] p@[i] == given[i]),
{
    if let Some(p) = config.password {
        if forall|i: int| 0 <= i < 16 ==> #[trigger] p@[i] == given[i] {
            assert(p@ =~= given);
        }
    }
}

/// Whether a login gives the password of the server, byte by byte, if the server has one.
pub open spec fn knows_password(buf: Seq<u8>, config: Config) -> bool {
    config.password matches Some(p) ==> forall|i: int| 0 <= i < 16 ==> #[trigger] p@[i] == buf[16 + i]
}

/// Whether `data` is a text from nobody: four zeros, and the text.
pub open spec fn from_nobody(data: Seq<u8>, text: Seq<char>) -> bool {
    &&& data.len() == 4 + vstd::utf8::encode_utf8(text).len()
    &&& data[0] == 0 && data[1] == 0 && data[2] == 0 && data[3] == 0
    &&& data.skip(4) == vstd::utf8::encode_utf8(text)
}

/// A login is parsed exactly where it is accepted.
pub proof fn law_parse_accepts_exactly(buf: &[u8], r: Result<LoginData, String>)
    requires
        call_ensures(client::parse, (buf,), r),
    ensures
        r is Ok <==> acceptable(buf@),
        r matches Ok(login) ==> client::says(buf@, login),
{
    law_login_is_accepted_exactly(buf@);
}

/// The length of a login is what its four bytes are worth, and is turned down exactly where it is
/// not from 97 to 8439.
pub proof fn law_login_length_is_read(prefix: &[u8; 4], r: Result<usize, String>)
    requires
        call_ensures(client::login_length, (prefix,), r),
    ensures
        ({
            let n = client::laws::worth(prefix@);
            &&& r is Ok <==> 97 <= n <= 8439
            &&& r matches Ok(length) ==> length == n
            &&& r matches Err(e) ==> e@ == "Login len("@ + text::decimal(n as nat)
                + ") out of range."@
        }),
{
}

/// Whoever is turned away gets a header with the length and the code of a text, and the text.
pub proof fn law_refusal_is_a_text(n: usize, reason: &str, r: (Vec<u8>, Vec<u8>), j: int)
    requires
        n >= 4,
        call_ensures(client::refusal, (n, reason), r),
    ensures
        r.0@.len() == n + 1,
        client::laws::worth(r.0@) == vstd::utf8::encode_utf8(reason@).len() % 0x1_0000_0000,
        4 <= j < n ==> r.0@[j] == 0,
        r.0@[n as int] == 0x90,
        from_nobody(r.1@, reason@),
{
    let len = vstd::utf8::encode_utf8(reason@).len();
    client::laws::law_header_bytes(n as nat, len, 0x90, j);
    assert(r.1@.skip(4) =~= vstd::utf8::encode_utf8(reason@));
}

/// A login gets one of three answers: none at all where it is not accepted; a text where it is but
/// its password is wrong; and else it goes to the room of its game, in the client's name.
pub proof fn law_login_gets_its_answer(buf: &[u8], config: &Config, r: LoginOutcome, j: int)
    requires
        buf@.len() >= 97,
        call_ensures(client::log_in, (buf, config), r),
    ensures
        r is Malformed <==> !acceptable(buf@),
        r is Refused <==> acceptable(buf@) && !knows_password(buf@, *config),
        r is Join <==> acceptable(buf@) && knows_password(buf@, *config),
        r matches LoginOutcome::Refused { error, header, data } ==> {
            let n = client::login_buffer_len(buf@) as int;
            &&& error@ == "Invalid server password."@
            &&& header@.len() == n + 1
            &&& client::laws::worth(header@) == vstd::utf8::encode_utf8(error@).len()
                % 0x1_0000_0000
            &&& 4 <= j < n ==> header@[j] == 0
            &&& header@[n] == 0x90
            &&& from_nobody(data@, error@)
        },
        r matches LoginOutcome::Join { request, buffer_len } ==> {
            &&& buffer_len == client::login_buffer_len(buf@)
            &&& client::asks(buf@, request)
        },
{
    law_login_is_accepted_exactly(buf@);
    let given = buf@.subrange(16, 32);
    assert forall|i: int| 0 <= i < 16 implies #[trigger] given[i] == buf@[16 + i] by {}
    law_password_decides(*config, given);
    if let LoginOutcome::Refused { data, .. } = r {
        let text = vstd::utf8::encode_utf8("Invalid server password."@);
        let n = client::login_buffer_len(buf@);
        law_buffer_is_large_enough(client::v3_field(buf@, 48), buf@[33] as nat, buf@);
        client::laws::law_header_bytes(n, text.len(), 0x90, j);
        assert(data@.skip(4) =~= text);
    }
}

/// A header that is made that of a text keeps its length and all between the number and the code;
/// the text itself goes behind four zeros.
pub proof fn law_connect_error_is_a_text(
    cmd_buf: &mut Vec<u8>,
    text: &str,
    data: Vec<u8>,
    j: int,
)
    requires
        cmd_buf@.len() >= 5,
        call_ensures(client::connect_error, (cmd_buf, text), data),
    ensures
        final(cmd_buf)@.len() == old(cmd_buf)@.len(),
        client::laws::worth(final(cmd_buf)@) == vstd::utf8::encode_utf8(text@).len()
            % 0x1_0000_0000,
        4 <= j < old(cmd_buf)@.len() - 1 ==> final(cmd_buf)@[j] == old(cmd_buf)@[j],
        final(cmd_buf)@[old(cmd_buf)@.len() - 1] == 0x90,
        from_nobody(data@, text@),
{
    bytes::law_le_bytes_weigh(vstd::utf8::encode_utf8(text@).len(), Seq::empty());
    assert(data@.skip(4) =~= vstd::utf8::encode_utf8(text@));
}

} // verus!
