//! A heterogeneous network of real nodes: bitcoind plus one node each of LND, CLN, Eclair and ldk-server, connected in a
//! ring of announced channels. This is what the containers are started with and how their state is judged.
use crate::node::NodeId;
use crate::parsing::{ClnConnection, EclairConnection, LdkServerConnection, LndConnection, NodeConnection};
use crate::primitives::{parsed_public_key, PublicKey};
use crate::scenario::{NodeHandle, NodeImpl};
use crate::simulated::{ConfigFragment, TestNetwork};
use crate::text::{decimal, decimal_text, hex_chars, hex_encode, push_decimal, same_text, starts_with, text};
use std::str::FromStr;
use vstd::prelude::*;

verus! {

/// The p2p listening port used by every lightning node container.
pub const P2P_PORT: u16 = 9735;

/// Size of every channel in the ring.
pub const CHANNEL_SIZE_SAT: u64 = 1_000_000;

/// On-chain amount each channel-opening node is funded with.
pub const ONCHAIN_FUND_SAT: u64 = 10_000_000;

/// Shared credentials for bitcoind RPC, used by every node's chain backend connection.
pub const BTC_RPC_USER: &'static str = "user";

pub const BTC_RPC_PASS: &'static str = "pass";

/// ZMQ endpoints: LND consumes rawblock + rawtx, Eclair consumes hashblock + rawtx.
pub const ZMQ_RAWBLOCK_PORT: u16 = 28332;

pub const ZMQ_RAWTX_PORT: u16 = 28333;

pub const ZMQ_HASHBLOCK_PORT: u16 = 28334;

/// Regtest RPC port inside the bitcoind container.
pub const RPC_PORT: u16 = 18443;

/// The gRPC port of LND.
pub const LND_GRPC_PORT: u16 = 10009;

/// The gRPC port of CLN.
pub const CLN_GRPC_PORT: u16 = 9736;

/// The API port of Eclair.
pub const ECLAIR_API_PORT: u16 = 8080;

/// The password of Eclair's API.
pub const ECLAIR_API_PASSWORD: &'static str = "simln-api";

/// The gRPC port of ldk-server.
pub const LDK_GRPC_PORT: u16 = 3536;

/// Where ldk-server keeps its data.
pub const LDK_STORAGE_DIR: &'static str = "/data/ldk-server";

/// The revision that ldk-server is built from.
pub const LDK_SERVER_REV: &'static str = "8163f4fe139368613959bf4f10b19ee6a5b9b4ab";

/// The repository that ldk-server is built from.
pub const LDK_SERVER_REPO: &'static str = "https://github.com/lightningdevkit/ldk-server.git";

/// How many lines of a container's logs are shown when it fails.
pub const LOG_TAIL_LINES: usize = 100;

/// The texts of arguments.
pub open spec fn texts(args: Seq<String>) -> Seq<Seq<char>> {
    args.map_values(|a: String| a@)
}

/// Text behind other text.
fn with_text(a: &str, b: &str) -> (s: String)
    ensures
        s@ == a@ + b@,
{
    let mut s = text(a);
    s.append(b);
    s
}

/// A number behind text.
fn with_number(a: &str, n: u16) -> (s: String)
    ensures
        s@ == a@ + decimal(n as nat),
{
    let mut s = text(a);
    push_decimal(&mut s, n as u64);
    s
}

/// A host and a port behind text.
fn with_endpoint(a: &str, host: &str, port: u16) -> (s: String)
    ensures
        s@ == a@ + host@ + ":"@ + decimal(port as nat),
{
    let mut s = text(a);
    s.append(host);
    s.append(":");
    push_decimal(&mut s, port as u64);
    s
}

/// The name of the container of a node, which is unique to a process.
pub fn container_name(node: &str, process_id: u32) -> (s: String)
    ensures
        s@ == "simln-"@ + node@ + "-"@ + decimal(process_id as nat),
{
    let mut s = text("simln-");
    s.append(node);
    s.append("-");
    push_decimal(&mut s, process_id as u64);
    s
}

/// The address under which the other containers reach a node.
pub fn p2p_address(name: &str) -> (s: String)
    ensures
        s@ == name@ + ":"@ + decimal(P2P_PORT as nat),
{
    let mut s = with_text(name, ":");
    push_decimal(&mut s, P2P_PORT as u64);
    s
}

/// The arguments of bitcoind.
pub open spec fn bitcoind_arg_texts() -> Seq<Seq<char>> {
    seq![
        "-regtest"@,
        "-server=1"@,
        "-txindex=1"@,
        "-rpcbind=0.0.0.0"@,
        "-rpcallowip=0.0.0.0/0"@,
        "-rpcuser="@ + BTC_RPC_USER@,
        "-rpcpassword="@ + BTC_RPC_PASS@,
        "-zmqpubrawblock=tcp://0.0.0.0:"@ + decimal(ZMQ_RAWBLOCK_PORT as nat),
        "-zmqpubrawtx=tcp://0.0.0.0:"@ + decimal(ZMQ_RAWTX_PORT as nat),
        "-zmqpubhashblock=tcp://0.0.0.0:"@ + decimal(ZMQ_HASHBLOCK_PORT as nat),
        "-fallbackfee=0.0002"@,
        "-addresstype=bech32m"@,
        "-changetype=bech32m"@,
    ]
}

/// The arguments of bitcoind.
pub fn bitcoind_args() -> (args: Vec<String>)
    ensures
        texts(args@) == bitcoind_arg_texts(),
{
    let mut args: Vec<String> = Vec::new();
    args.push(text("-regtest"));
    args.push(text("-server=1"));
    args.push(text("-txindex=1"));
    args.push(text("-rpcbind=0.0.0.0"));
    args.push(text("-rpcallowip=0.0.0.0/0"));
    args.push(with_text("-rpcuser=", BTC_RPC_USER));
    args.push(with_text("-rpcpassword=", BTC_RPC_PASS));
    args.push(with_number("-zmqpubrawblock=tcp://0.0.0.0:", ZMQ_RAWBLOCK_PORT));
    args.push(with_number("-zmqpubrawtx=tcp://0.0.0.0:", ZMQ_RAWTX_PORT));
    args.push(with_number("-zmqpubhashblock=tcp://0.0.0.0:", ZMQ_HASHBLOCK_PORT));
    args.push(text("-fallbackfee=0.0002"));
    args.push(text("-addresstype=bech32m"));
    args.push(text("-changetype=bech32m"));
    assert(texts(args@) =~= bitcoind_arg_texts());
    args
}

/// The arguments of LND in a container with a name, next to a bitcoind.
pub open spec fn lnd_arg_texts(name: Seq<char>, bitcoind: Seq<char>) -> Seq<Seq<char>> {
    seq![
        "--noseedbackup"@,
        "--bitcoin.regtest"@,
        "--bitcoin.node=bitcoind"@,
        "--bitcoind.rpchost="@ + bitcoind + ":"@ + decimal(RPC_PORT as nat),
        "--bitcoind.rpcuser="@ + BTC_RPC_USER@,
        "--bitcoind.rpcpass="@ + BTC_RPC_PASS@,
        "--bitcoind.zmqpubrawblock=tcp://"@ + bitcoind + ":"@ + decimal(ZMQ_RAWBLOCK_PORT as nat),
        "--bitcoind.zmqpubrawtx=tcp://"@ + bitcoind + ":"@ + decimal(ZMQ_RAWTX_PORT as nat),
        "--rpclisten=0.0.0.0:"@ + decimal(LND_GRPC_PORT as nat),
        "--listen=0.0.0.0:"@ + decimal(P2P_PORT as nat),
        "--accept-keysend"@,
        "--alias=lnd"@,
        "--bitcoin.basefee=0"@,
        "--bitcoin.feerate=0"@,
        "--tlsextradomain="@ + name,
        "--tlsextraip=127.0.0.1"@,
    ]
}

/// The arguments of LND. Routing fees are zero so multi-hop payments through this node never hit sender-side fee budgets,
/// and the TLS cert validates both for other containers (by name) and for the host dialing the mapped port.
pub fn lnd_args(name: &str, bitcoind_name: &str) -> (args: Vec<String>)
    ensures
        texts(args@) == lnd_arg_texts(name@, bitcoind_name@),
{
    let mut args: Vec<String> = Vec::new();
    args.push(text("--noseedbackup"));
    args.push(text("--bitcoin.regtest"));
    args.push(text("--bitcoin.node=bitcoind"));
    args.push(with_endpoint("--bitcoind.rpchost=", bitcoind_name, RPC_PORT));
    args.push(with_text("--bitcoind.rpcuser=", BTC_RPC_USER));
    args.push(with_text("--bitcoind.rpcpass=", BTC_RPC_PASS));
    args.push(with_endpoint("--bitcoind.zmqpubrawblock=tcp://", bitcoind_name, ZMQ_RAWBLOCK_PORT));
    args.push(with_endpoint("--bitcoind.zmqpubrawtx=tcp://", bitcoind_name, ZMQ_RAWTX_PORT));
    args.push(with_number("--rpclisten=0.0.0.0:", LND_GRPC_PORT));
    args.push(with_number("--listen=0.0.0.0:", P2P_PORT));
    args.push(text("--accept-keysend"));
    args.push(text("--alias=lnd"));
    args.push(text("--bitcoin.basefee=0"));
    args.push(text("--bitcoin.feerate=0"));
    args.push(with_text("--tlsextradomain=", name));
    args.push(text("--tlsextraip=127.0.0.1"));
    assert(texts(args@) =~= lnd_arg_texts(name@, bitcoind_name@));
    args
}

/// The arguments of CLN, next to a bitcoind.
pub open spec fn cln_arg_texts(bitcoind: Seq<char>) -> Seq<Seq<char>> {
    seq![
        "--bitcoin-rpcconnect="@ + bitcoind,
        "--bitcoin-rpcport="@ + decimal(RPC_PORT as nat),
        "--bitcoin-rpcuser="@ + BTC_RPC_USER@,
        "--bitcoin-rpcpassword="@ + BTC_RPC_PASS@,
        "--bind-addr=0.0.0.0:"@ + decimal(P2P_PORT as nat),
        "--grpc-host=0.0.0.0"@,
        "--grpc-port="@ + decimal(CLN_GRPC_PORT as nat),
        "--alias=cln"@,
        "--fee-base=0"@,
        "--fee-per-satoshi=0"@,
    ]
}

/// The arguments of CLN. Fees are zero so multi-hop payments through this node never hit fee budgets.
pub fn cln_args(bitcoind_name: &str) -> (args: Vec<String>)
    ensures
        texts(args@) == cln_arg_texts(bitcoind_name@),
{
    let mut args: Vec<String> = Vec::new();
    args.push(with_text("--bitcoin-rpcconnect=", bitcoind_name));
    args.push(with_number("--bitcoin-rpcport=", RPC_PORT));
    args.push(with_text("--bitcoin-rpcuser=", BTC_RPC_USER));
    args.push(with_text("--bitcoin-rpcpassword=", BTC_RPC_PASS));
    args.push(with_number("--bind-addr=0.0.0.0:", P2P_PORT));
    args.push(text("--grpc-host=0.0.0.0"));
    args.push(with_number("--grpc-port=", CLN_GRPC_PORT));
    args.push(text("--alias=cln"));
    args.push(text("--fee-base=0"));
    args.push(text("--fee-per-satoshi=0"));
    assert(texts(args@) =~= cln_arg_texts(bitcoind_name@));
    args
}

/// The options of Eclair, next to a bitcoind.
pub open spec fn eclair_opt_texts(bitcoind: Seq<char>) -> Seq<Seq<char>> {
    seq![
        "-Declair.allow-unsafe-startup=true"@,
        "-Declair.chain=regtest"@,
        "-Declair.node-alias=eclair"@,
        "-Declair.server.port="@ + decimal(P2P_PORT as nat),
        "-Declair.api.enabled=true"@,
        "-Declair.api.binding-ip=0.0.0.0"@,
        "-Declair.api.port="@ + decimal(ECLAIR_API_PORT as nat),
        "-Declair.api.password="@ + ECLAIR_API_PASSWORD@,
        "-Declair.bitcoind.host="@ + bitcoind,
        "-Declair.bitcoind.rpcport="@ + decimal(RPC_PORT as nat),
        "-Declair.bitcoind.rpcuser="@ + BTC_RPC_USER@,
        "-Declair.bitcoind.rpcpassword="@ + BTC_RPC_PASS@,
        "-Declair.bitcoind.wallet=simln"@,
        "-Declair.bitcoind.zmqblock=tcp://"@ + bitcoind + ":"@ + decimal(ZMQ_HASHBLOCK_PORT as nat),
        "-Declair.bitcoind.zmqtx=tcp://"@ + bitcoind + ":"@ + decimal(ZMQ_RAWTX_PORT as nat),
        "-Declair.features.keysend=optional"@,
        "-Declair.channel.min-final-expiry-delta-blocks=24"@,
        "-Declair.channel.fulfill-safety-before-timeout-blocks=12"@,
        "-Declair.relay.fees.public-channels.fee-base-msat=0"@,
        "-Declair.relay.fees.public-channels.fee-proportional-millionths=0"@,
    ]
}

/// The options of Eclair.
fn eclair_opts(bitcoind_name: &str) -> (args: Vec<String>)
    ensures
        texts(args@) == eclair_opt_texts(bitcoind_name@),
{
    let mut args: Vec<String> = Vec::new();
    // The image carries an unconditional guard against running development builds.
    args.push(text("-Declair.allow-unsafe-startup=true"));
    args.push(text("-Declair.chain=regtest"));
    args.push(text("-Declair.node-alias=eclair"));
    args.push(with_number("-Declair.server.port=", P2P_PORT));
    args.push(text("-Declair.api.enabled=true"));
    args.push(text("-Declair.api.binding-ip=0.0.0.0"));
    args.push(with_number("-Declair.api.port=", ECLAIR_API_PORT));
    args.push(with_text("-Declair.api.password=", ECLAIR_API_PASSWORD));
    args.push(with_text("-Declair.bitcoind.host=", bitcoind_name));
    args.push(with_number("-Declair.bitcoind.rpcport=", RPC_PORT));
    args.push(with_text("-Declair.bitcoind.rpcuser=", BTC_RPC_USER));
    args.push(with_text("-Declair.bitcoind.rpcpassword=", BTC_RPC_PASS));
    args.push(text("-Declair.bitcoind.wallet=simln"));
    // The zmqblock endpoint expects hashblock, not rawblock.
    args.push(with_endpoint("-Declair.bitcoind.zmqblock=tcp://", bitcoind_name, ZMQ_HASHBLOCK_PORT));
    args.push(with_endpoint("-Declair.bitcoind.zmqtx=tcp://", bitcoind_name, ZMQ_RAWTX_PORT));
    args.push(text("-Declair.features.keysend=optional"));
    // Keysends from CLN need a min final expiry of at least its 22-block default, with the fulfill safety margin
    // strictly below it.
    args.push(text("-Declair.channel.min-final-expiry-delta-blocks=24"));
    args.push(text("-Declair.channel.fulfill-safety-before-timeout-blocks=12"));
    args.push(text("-Declair.relay.fees.public-channels.fee-base-msat=0"));
    args.push(text("-Declair.relay.fees.public-channels.fee-proportional-millionths=0"));
    assert(texts(args@) =~= eclair_opt_texts(bitcoind_name@));
    args
}

/// Texts in a row, with spaces between them.
pub open spec fn spaced(parts: Seq<Seq<char>>) -> Seq<char>
    decreases parts.len(),
{
    if parts.len() == 0 {
        Seq::empty()
    } else if parts.len() == 1 {
        parts[0]
    } else {
        spaced(parts.drop_last()) + " "@ + parts.last()
    }
}

/// The options that Eclair is started with, in one text, because its image ignores container arguments.
pub fn eclair_java_opts(bitcoind_name: &str) -> (s: String)
    ensures
        s@ == spaced(eclair_opt_texts(bitcoind_name@)),
{
    let opts = eclair_opts(bitcoind_name);
    let ghost parts = texts(opts@);
    let mut s = String::new();
    let mut i: usize = 0;
    assert(parts.subrange(0, 0) =~= Seq::empty());
    while i < opts.len()
        invariant
            i <= opts@.len(),
            parts == texts(opts@),
            s@ == spaced(parts.subrange(0, i as int)),
        decreases opts@.len() - i,
    {
        let ghost next = parts.subrange(0, i as int + 1);
        assert(next.drop_last() =~= parts.subrange(0, i as int));
        if i > 0 {
            s.append(" ");
        }
        s.append(opts[i].as_str());
        assert(s@ =~= spaced(next));
        i += 1;
    }
    assert(parts.subrange(0, i as int) =~= parts);
    s
}

/// The configuration file of ldk-server, next to a bitcoind.
pub fn ldk_server_config(bitcoind_name: &str) -> (s: String)
    ensures
        s@ == "[node]\nnetwork = \"regtest\"\nlistening_addresses = [\"0.0.0.0:"@ + decimal(P2P_PORT as nat)
            + "\"]\nalias = \"ldk\"\n\n[storage.disk]\ndir_path = \""@ + LDK_STORAGE_DIR@
            + "\"\n\n[log]\nlevel = \"Info\"\nlog_to_file = false\n\n[bitcoind]\nrpc_address = \""@ + bitcoind_name@
            + ":"@ + decimal(RPC_PORT as nat) + "\"\nrpc_user = \""@ + BTC_RPC_USER@ + "\"\nrpc_password = \""@
            + BTC_RPC_PASS@ + "\"\n"@,
{
    let mut s = with_number("[node]\nnetwork = \"regtest\"\nlistening_addresses = [\"0.0.0.0:", P2P_PORT);
    s.append("\"]\nalias = \"ldk\"\n\n[storage.disk]\ndir_path = \"");
    s.append(LDK_STORAGE_DIR);
    s.append("\"\n\n[log]\nlevel = \"Info\"\nlog_to_file = false\n\n[bitcoind]\nrpc_address = \"");
    s.append(bitcoind_name);
    s.append(":");
    push_decimal(&mut s, RPC_PORT as u64);
    s.append("\"\nrpc_user = \"");
    s.append(BTC_RPC_USER);
    s.append("\"\nrpc_password = \"");
    s.append(BTC_RPC_PASS);
    s.append("\"\n");
    s
}

/// The position of the last colon of text, if it has one.
pub open spec fn last_colon(s: Seq<char>) -> Option<int>
    decreases s.len(),
{
    if s.len() == 0 {
        None
    } else if s.last() == ':' {
        Some(s.len() - 1)
    } else {
        last_colon(s.drop_last())
    }
}

/// The name and the tag of an image: what is before and behind its last colon. The tag is that of the latest image where
/// there is none.
pub open spec fn image_parts(image: Seq<char>) -> (Seq<char>, Seq<char>) {
    match last_colon(image) {
        Some(i) => (image.subrange(0, i), image.subrange(i + 1, image.len() as int)),
        None => (image, "latest"@),
    }
}

/// Splits an image into its name and its tag.
pub fn split_image(image: &str) -> (r: Result<(String, String), String>)
    ensures
        r matches Ok(parts) && (parts.0@, parts.1@) == image_parts(image@),
{
    let n: usize = image.unicode_len();
    let mut i: usize = n;
    assert(image@.subrange(0, n as int) =~= image@);
    while i > 0
        invariant
            i <= n,
            n == image@.len(),
            last_colon(image@) == last_colon(image@.subrange(0, i as int)),
        decreases i,
    {
        assert(image@.subrange(0, i as int).drop_last() =~= image@.subrange(0, i - 1));
        if image.get_char(i - 1) == ':' {
            let name = image.substring_char(0, i - 1).to_owned();
            let tag = image.substring_char(i, n).to_owned();
            return Ok((name, tag));
        }
        i -= 1;
    }
    Ok((image.to_owned(), text("latest")))
}

/// The parts of an image make up the image again, and there is no colon in its tag.
pub proof fn law_image_parts(image: Seq<char>)
    requires
        last_colon(image) is Some,
    ensures
        image == image_parts(image).0 + seq![':'] + image_parts(image).1,
        !image_parts(image).1.contains(':'),
{
    lemma_last_colon(image);
    let i = last_colon(image)->Some_0;
    let (name, tag) = image_parts(image);
    assert(image =~= name + seq![':'] + tag);
    assert forall|j: int| 0 <= j < tag.len() implies tag[j] != ':' by {
        assert(tag[j] == image[i + 1 + j]);
    }
}

proof fn lemma_last_colon(s: Seq<char>)
    ensures
        match last_colon(s) {
            Some(i) => 0 <= i < s.len() && s[i] == ':' && forall|j: int| i < j < s.len() ==> #[trigger] s[j] != ':',
            None => forall|j: int| 0 <= j < s.len() ==> #[trigger] s[j] != ':',
        },
    decreases s.len(),
{
    if s.len() > 0 && s.last() != ':' {
        let rest = s.drop_last();
        lemma_last_colon(rest);
        assert forall|j: int| 0 <= j < s.len() - 1 implies rest[j] == #[trigger] s[j] by {}
    }
}

/// The image that ldk-server is built as, where no other image is given: it is tagged with the start of its revision.
pub fn built_image() -> (s: String)
    ensures
        s@ == "simln-ldk-server:"@ + LDK_SERVER_REV@.subrange(0, 12),
{
    proof {
        reveal_strlit("8163f4fe139368613959bf4f10b19ee6a5b9b4ab");
    }
    with_text("simln-ldk-server:", LDK_SERVER_REV.substring_char(0, 12))
}

/// Where the logs of a container that are shown start, given how many lines there are.
pub fn log_tail_start(lines: usize) -> (start: usize)
    ensures
        start == (if lines > LOG_TAIL_LINES {
            lines - LOG_TAIL_LINES
        } else {
            0
        }),
{
    if lines > LOG_TAIL_LINES {
        lines - LOG_TAIL_LINES
    } else {
        0
    }
}

/// Checks the contents of a file that is created asynchronously on node startup.
pub fn check_contents(path: &str, contents: Vec<u8>) -> (r: Result<Vec<u8>, String>)
    ensures
        if contents@.len() == 0 {
            r matches Err(m) && m@ == path@ + " exists but is empty"@
        } else {
            r == Ok::<Vec<u8>, String>(contents)
        },
{
    if contents.len() == 0 {
        return Err(with_text(path, " exists but is empty"));
    }
    Ok(contents)
}

/// The api key of ldk-server, given the contents of its file: 32 raw bytes, of which clients use the lower case hexadecimal
/// encoding. The file is created on startup, and empty before.
pub fn ldk_api_key(contents: &Vec<u8>) -> (r: Result<String, String>)
    ensures
        if contents@.len() == 0 {
            r matches Err(m) && m@ == "api key file empty"@
        } else {
            r matches Ok(key) && key@ == hex_chars(contents@)
        },
{
    if contents.len() == 0 {
        return Err(text("api key file empty"));
    }
    Ok(hex_encode(contents.as_slice()))
}

/// The public key of Eclair, given its id in a reply, if it is there, and the text of the reply.
pub fn eclair_node_key(node_id: &Option<String>, reply: &str) -> (r: Result<PublicKey, String>)
    ensures
        match node_id {
            None => r matches Err(m) && m@ == "getinfo response missing nodeId: "@ + reply@,
            Some(id) => match parsed_public_key(id@) {
                Ok(bytes) => r matches Ok(key) && key.0@ == bytes,
                Err(e) => r matches Err(m) && m@ == "parsing eclair pubkey: "@ + e,
            },
        },
{
    match node_id {
        None => Err(with_text("getinfo response missing nodeId: ", reply)),
        Some(id) => match PublicKey::parse(id.as_str()) {
            Ok(key) => Ok(key),
            Err(e) => Err(with_text("parsing eclair pubkey: ", e.as_str())),
        },
    }
}

/// The URL of an endpoint of Eclair's API, from the host through the mapped port.
pub fn eclair_endpoint(port: u16, endpoint: &str) -> (url: String)
    ensures
        url@ == "http://"@ + "127.0.0.1"@ + ":"@ + decimal(port as nat) + "/"@ + endpoint@,
{
    let mut url = local_url("http://", port);
    url.append("/");
    url.append(endpoint);
    url
}

/// What the bitcoin library makes of the text of an address: the address as it is written, or the error's text.
pub uninterp spec fn parsed_address(text: Seq<char>) -> Result<Seq<char>, Seq<char>>;

/// Parses an address with `bitcoin::Address::from_str`, for whatever network it is, and writes it again with its `Display`
/// implementation. The result depends on the text alone.
#[verifier::external_body]
fn read_address(text: &str) -> (r: Result<String, String>)
    ensures
        match r {
            Ok(address) => parsed_address(text@) == Ok::<Seq<char>, Seq<char>>(address@),
            Err(e) => parsed_address(text@) == Err::<Seq<char>, Seq<char>>(e@),
        },
{
    bitcoin::Address::from_str(text).map(|a| a.assume_checked().to_string()).map_err(|e| e.to_string())
}

/// The address that a node is funded at.
pub fn funding_address(addr: &str) -> (r: Result<String, String>)
    ensures
        match parsed_address(addr@) {
            Ok(address) => r matches Ok(s) && s@ == address,
            Err(e) => r matches Err(m) && m@ == "parsing funding address "@ + addr@ + ": "@ + e,
        },
{
    match read_address(addr) {
        Ok(address) => Ok(address),
        Err(e) => {
            let mut m = with_text("parsing funding address ", addr);
            m.append(": ");
            m.append(e.as_str());
            Err(m)
        },
    }
}

/// What is wrong with a view of the graph that should have at least so many nodes and channels, or channel directions.
pub open spec fn graph_shortfall(
    node_count: nat,
    nodes: nat,
    channel_count: nat,
    channels: nat,
    unit: Seq<char>,
) -> Option<Seq<char>> {
    if node_count >= nodes && channel_count >= channels {
        None
    } else {
        Some(
            "graph has "@ + decimal(node_count) + "/"@ + decimal(nodes) + " nodes, "@ + decimal(channel_count) + "/"@
                + decimal(channels) + unit,
        )
    }
}

/// Checks that a view of the graph has at least so many nodes and channels.
fn check_graph(node_count: usize, nodes: usize, channel_count: usize, channels: usize, unit: &str) -> (r: Result<
    (),
    String,
>)
    ensures
        match graph_shortfall(node_count as nat, nodes as nat, channel_count as nat, channels as nat, unit@) {
            None => r is Ok,
            Some(m) => r matches Err(e) && e@ == m,
        },
{
    if node_count >= nodes && channel_count >= channels {
        return Ok(());
    }
    let mut m = text("graph has ");
    push_decimal(&mut m, node_count as u64);
    m.append("/");
    push_decimal(&mut m, nodes as u64);
    m.append(" nodes, ");
    push_decimal(&mut m, channel_count as u64);
    m.append("/");
    push_decimal(&mut m, channels as u64);
    m.append(unit);
    Err(m)
}

/// Checks that a node's graph view has at least the given node and channel counts.
pub fn graph_synced(node_count: usize, channel_count: usize, nodes: usize, channels: usize) -> (r: Result<(), String>)
    ensures
        match graph_shortfall(
            node_count as nat,
            nodes as nat,
            channel_count as nat,
            channels as nat,
            " channels"@,
        ) {
            None => r is Ok,
            Some(m) => r matches Err(e) && e@ == m,
        },
{
    check_graph(node_count, nodes, channel_count, channels, " channels")
}

/// Checks that CLN's graph view, which lists one entry per direction, has at least the given node and channel counts.
pub fn cln_graph_synced(node_count: usize, direction_count: usize, nodes: usize, channels: usize) -> (r: Result<
    (),
    String,
>)
    requires
        channels * 2 <= usize::MAX,
    ensures
        match graph_shortfall(
            node_count as nat,
            nodes as nat,
            direction_count as nat,
            (channels * 2) as nat,
            " channel directions"@,
        ) {
            None => r is Ok,
            Some(m) => r matches Err(e) && e@ == m,
        },
{
    check_graph(node_count, nodes, direction_count, channels * 2, " channel directions")
}

/// Checks that every node reports both of its ring channels active.
pub fn ring_active(lnd: usize, cln: usize, eclair: usize, ldk: usize) -> (r: Result<(), String>)
    ensures
        if lnd == 2 && cln == 2 && eclair == 2 && ldk == 2 {
            r is Ok
        } else {
            &&& r matches Err(m)
            &&& m@ == "channels active: lnd "@ + decimal(lnd as nat) + "/2, cln "@ + decimal(cln as nat)
                + "/2, eclair "@ + decimal(eclair as nat) + "/2, ldk "@ + decimal(ldk as nat) + "/2"@
        },
{
    if lnd == 2 && cln == 2 && eclair == 2 && ldk == 2 {
        return Ok(());
    }
    let mut m = text("channels active: lnd ");
    push_decimal(&mut m, lnd as u64);
    m.append("/2, cln ");
    push_decimal(&mut m, cln as u64);
    m.append("/2, eclair ");
    push_decimal(&mut m, eclair as u64);
    m.append("/2, ldk ");
    push_decimal(&mut m, ldk as u64);
    m.append("/2");
    Err(m)
}

/// The node at an index of the ring.
pub fn ring_node(idx: usize) -> (r: Result<NodeImpl, String>)
    ensures
        match idx {
            0 => r == Ok::<NodeImpl, String>(NodeImpl::Lnd),
            1 => r == Ok::<NodeImpl, String>(NodeImpl::Cln),
            2 => r == Ok::<NodeImpl, String>(NodeImpl::Eclair),
            3 => r == Ok::<NodeImpl, String>(NodeImpl::LdkServer),
            _ => r matches Err(m) && m@ == "no node at ring index "@ + decimal(idx as nat),
        },
{
    match idx {
        0 => Ok(NodeImpl::Lnd),
        1 => Ok(NodeImpl::Cln),
        2 => Ok(NodeImpl::Eclair),
        3 => Ok(NodeImpl::LdkServer),
        _ => {
            let mut m = text("no node at ring index ");
            push_decimal(&mut m, idx as u64);
            Err(m)
        },
    }
}

/// Whether an invoice of LND is that of a settled keysend.
pub fn lnd_keysend_settled(is_keysend: bool, state: i32) -> (r: bool)
    ensures
        r == (is_keysend && state == 1),
{
    is_keysend && state == 1
}

/// Whether an invoice of CLN is that of a paid keysend.
pub fn cln_keysend_settled(status: i32, label: &str) -> (r: bool)
    ensures
        r == (status == 1 && "keysend-"@.is_prefix_of(label@)),
{
    status == 1 && starts_with(label, "keysend-")
}

/// Whether a payment that Eclair lists is a received keysend.
pub fn eclair_keysend_settled(payment_type: &Option<String>, status: &Option<String>) -> (r: bool)
    ensures
        r == ((payment_type matches Some(t) && t@ == "KeySend"@) && (status matches Some(s) && s@ == "received"@)),
{
    is_text(payment_type, "KeySend") && is_text(status, "received")
}

/// Whether text is there and is some text.
fn is_text(value: &Option<String>, expected: &str) -> (r: bool)
    ensures
        r == (value matches Some(v) && v@ == expected@),
{
    match value {
        Some(v) => same_text(v.as_str(), expected),
        None => false,
    }
}

/// Whether a payment that ldk-server lists is an inbound keysend that succeeded.
pub fn ldk_keysend_settled(direction: i32, status: i32, is_spontaneous: bool) -> (r: bool)
    ensures
        r == (direction == 0 && status == 1 && is_spontaneous),
{
    direction == 0 && status == 1 && is_spontaneous
}

/// Whether a channel that Eclair lists is active.
pub fn eclair_channel_active(state: &Option<String>) -> (r: bool)
    ensures
        r == (state matches Some(s) && s@ == "NORMAL"@),
{
    is_text(state, "NORMAL")
}

/// Whether a channel that CLN lists is active.
pub fn cln_channel_active(state: i32) -> (r: bool)
    ensures
        r == (state == 2),
{
    state == 2
}

/// Checks that LND has synced to the chain.
pub fn lnd_synced(synced_to_chain: bool) -> (r: Result<(), String>)
    ensures
        if synced_to_chain {
            r is Ok
        } else {
            r matches Err(m) && m@ == "not yet synced to chain"@
        },
{
    if synced_to_chain {
        Ok(())
    } else {
        Err(text("not yet synced to chain"))
    }
}

/// Checks that CLN has synced, in which case it warns of nothing.
pub fn cln_synced(warns_bitcoind_sync: bool, warns_lightningd_sync: bool) -> (r: Result<(), String>)
    ensures
        if !warns_bitcoind_sync && !warns_lightningd_sync {
            r is Ok
        } else {
            r matches Err(m) && m@ == "still syncing with bitcoind"@
        },
{
    if !warns_bitcoind_sync && !warns_lightningd_sync {
        Ok(())
    } else {
        Err(text("still syncing with bitcoind"))
    }
}

/// The alias of a node of the ring.
pub open spec fn ring_alias(implementation: NodeImpl) -> Seq<char> {
    match implementation {
        NodeImpl::Simulated => "simulated"@,
        NodeImpl::Lnd => "lnd"@,
        NodeImpl::Cln => "cln"@,
        NodeImpl::Eclair => "eclair"@,
        NodeImpl::LdkServer => "ldk"@,
    }
}

/// The handle of a node of the ring.
pub fn node_handle(pubkey: PublicKey, implementation: NodeImpl) -> (h: NodeHandle)
    ensures
        h.pubkey == pubkey,
        h.alias@ == ring_alias(implementation),
        h.implementation == implementation,
{
    let alias = match implementation {
        NodeImpl::Simulated => text("simulated"),
        NodeImpl::Lnd => text("lnd"),
        NodeImpl::Cln => text("cln"),
        NodeImpl::Eclair => text("eclair"),
        NodeImpl::LdkServer => text("ldk"),
    };
    NodeHandle { pubkey, alias, implementation }
}

/// The URL of a port on this host.
fn local_url(scheme: &str, port: u16) -> (s: String)
    ensures
        s@ == scheme@ + "127.0.0.1"@ + ":"@ + decimal(port as nat),
{
    with_endpoint(scheme, "127.0.0.1", port)
}

/// The connection to LND, from the host through the mapped port.
pub fn lnd_config(pubkey: PublicKey, port: u16, macaroon: String, cert: String) -> (c: LndConnection)
    ensures
        c.id == NodeId::PublicKey(pubkey),
        c.address@ == "https://"@ + "127.0.0.1"@ + ":"@ + decimal(port as nat),
        c.macaroon == macaroon,
        c.cert == cert,
{
    LndConnection { id: NodeId::PublicKey(pubkey), address: local_url("https://", port), macaroon, cert }
}

/// The connection to CLN, from the host through the mapped port.
pub fn cln_config(pubkey: PublicKey, port: u16, ca_cert: String, client_cert: String, client_key: String) -> (c:
    ClnConnection)
    ensures
        c.id == NodeId::PublicKey(pubkey),
        c.address@ == "https://"@ + "127.0.0.1"@ + ":"@ + decimal(port as nat),
        c.ca_cert == ca_cert,
        c.client_cert == client_cert,
        c.client_key == client_key,
{
    ClnConnection {
        id: NodeId::PublicKey(pubkey),
        address: local_url("https://", port),
        ca_cert,
        client_cert,
        client_key,
    }
}

/// The connection to Eclair, from the host through the mapped port.
pub fn eclair_config(pubkey: PublicKey, port: u16) -> (c: EclairConnection)
    ensures
        c.id == NodeId::PublicKey(pubkey),
        c.base_url@ == "http://"@ + "127.0.0.1"@ + ":"@ + decimal(port as nat),
        c.api_username@.len() == 0,
        c.api_password@ == ECLAIR_API_PASSWORD@,
{
    EclairConnection {
        id: NodeId::PublicKey(pubkey),
        base_url: local_url("http://", port),
        api_username: String::new(),
        api_password: text(ECLAIR_API_PASSWORD),
    }
}

/// The connection to ldk-server, from the host through the mapped port.
pub fn ldk_config(port: u16, api_key: String, cert: String) -> (c: LdkServerConnection)
    ensures
        c.address@ == "https://"@ + "127.0.0.1"@ + ":"@ + decimal(port as nat),
        c.api_key == api_key,
        c.cert == cert,
{
    LdkServerConnection { address: local_url("https://", port), api_key, cert }
}

/// The parameters of the requests with which Eclair connects to a peer and opens an announced channel.
pub fn eclair_open_channel(peer: &PublicKey, peer_addr: &str) -> (r: (String, Vec<(String, String)>))
    ensures
        r.0@ == peer.text() + "@"@ + peer_addr@,
        r.1@.map_values(|p: (String, String)| (p.0@, p.1@)) == seq![
            ("nodeId"@, peer.text()),
            ("fundingSatoshis"@, decimal(CHANNEL_SIZE_SAT as nat)),
            ("announceChannel"@, "true"@),
        ],
{
    let mut uri = peer.to_text();
    uri.append("@");
    uri.append(peer_addr);
    let mut params: Vec<(String, String)> = Vec::new();
    params.push((text("nodeId"), peer.to_text()));
    params.push((text("fundingSatoshis"), decimal_text(CHANNEL_SIZE_SAT)));
    params.push((text("announceChannel"), text("true")));
    assert(params@.map_values(|p: (String, String)| (p.0@, p.1@)) =~= seq![
        ("nodeId"@, peer.text()),
        ("fundingSatoshis"@, decimal(CHANNEL_SIZE_SAT as nat)),
        ("announceChannel"@, "true"@),
    ]);
    (uri, params)
}

/// The full heterogeneous network. Nodes are indexed in ring order: 0 = LND, 1 = CLN, 2 = Eclair, 3 = ldk-server, with
/// channels 0->1->2->3->0.
#[derive(Debug)]
pub struct RealNetwork {
    pub handles: Vec<NodeHandle>,
    pub node_configs: Vec<NodeConnection>,
}

impl RealNetwork {
    /// The network of four nodes with keys, which are connected to as described.
    pub fn new(
        lnd: (PublicKey, LndConnection),
        cln: (PublicKey, ClnConnection),
        eclair: (PublicKey, EclairConnection),
        ldk: (PublicKey, LdkServerConnection),
    ) -> (n: Self)
        ensures
            n.handles@.len() == 4,
            n.handles@[0].pubkey == lnd.0 && n.handles@[0].implementation is Lnd,
            n.handles@[1].pubkey == cln.0 && n.handles@[1].implementation is Cln,
            n.handles@[2].pubkey == eclair.0 && n.handles@[2].implementation is Eclair,
            n.handles@[3].pubkey == ldk.0 && n.handles@[3].implementation is LdkServer,
            forall|i: int|
                0 <= i < 4 ==> (#[trigger] n.handles@[i]).alias@ == ring_alias(n.handles@[i].implementation),
            n.node_configs@ == seq![
                NodeConnection::Lnd(lnd.1),
                NodeConnection::Cln(cln.1),
                NodeConnection::Eclair(eclair.1),
                NodeConnection::LdkServer(ldk.1),
            ],
    {
        let mut handles: Vec<NodeHandle> = Vec::new();
        handles.push(node_handle(lnd.0, NodeImpl::Lnd));
        handles.push(node_handle(cln.0, NodeImpl::Cln));
        handles.push(node_handle(eclair.0, NodeImpl::Eclair));
        handles.push(node_handle(ldk.0, NodeImpl::LdkServer));
        let ghost configs = seq![
            NodeConnection::Lnd(lnd.1),
            NodeConnection::Cln(cln.1),
            NodeConnection::Eclair(eclair.1),
            NodeConnection::LdkServer(ldk.1),
        ];
        let mut node_configs: Vec<NodeConnection> = Vec::new();
        node_configs.push(NodeConnection::Lnd(lnd.1));
        node_configs.push(NodeConnection::Cln(cln.1));
        node_configs.push(NodeConnection::Eclair(eclair.1));
        node_configs.push(NodeConnection::LdkServer(ldk.1));
        assert(node_configs@ =~= configs);
        RealNetwork { handles, node_configs }
    }
}

impl TestNetwork for RealNetwork {
    fn nodes(&self) -> (r: &Vec<NodeHandle>)
        ensures
            *r == self.handles,
    {
        &self.handles
    }

    fn config_fragment(self) -> (r: ConfigFragment)
        ensures
            r == ConfigFragment::RealNodes(self.node_configs),
    {
        ConfigFragment::RealNodes(self.node_configs)
    }
}

/// An image without a colon is the latest of its name.
pub proof fn law_image_without_a_tag_is_the_latest(image: Seq<char>)
    requires
        !image.contains(':'),
    ensures
        image_parts(image) == (image, "latest"@),
{
    lemma_last_colon(image);
    if let Some(i) = last_colon(image) {
        assert(image.contains(image[i]));
    }
}

/// Texts in a row are those texts with single spaces between them.
pub proof fn law_spaces_are_between_texts(parts: Seq<Seq<char>>, part: Seq<char>)
    ensures
        spaced(Seq::empty()).len() == 0,
        parts.len() == 0 ==> spaced(parts.push(part)) == part,
        parts.len() > 0 ==> spaced(parts.push(part)) == spaced(parts) + " "@ + part,
{
    assert(parts.push(part).drop_last() =~= parts);
}

/// A view of the graph falls short if and only if it has fewer nodes or fewer channels than it should.
pub proof fn law_graph_falls_short_of_either_count(
    node_count: nat,
    nodes: nat,
    channel_count: nat,
    channels: nat,
    unit: Seq<char>,
)
    ensures
        graph_shortfall(node_count, nodes, channel_count, channels, unit) is Some <==> node_count < nodes || channel_count
            < channels,
{
}

/// The nodes of the ring go by the names of their implementations.
pub proof fn law_ring_nodes_are_named_by_implementation()
    ensures
        ring_alias(NodeImpl::Lnd) == "lnd"@,
        ring_alias(NodeImpl::Cln) == "cln"@,
        ring_alias(NodeImpl::Eclair) == "eclair"@,
        ring_alias(NodeImpl::LdkServer) == "ldk"@,
{
}

} // verus!
