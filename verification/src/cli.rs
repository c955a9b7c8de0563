//! What the program says on the command line, and where it sends browsers
//! that come without encryption.

use crate::shares::{size_text, SharedItem};
use crate::text::{
    before, decimal, decimal_text, starts_with, text_before, views,
};
use vstd::prelude::*;

verus! {

/// The share of the files that is done, in percent, rounded to the nearest
/// whole number; none of no files.
pub open spec fn percent(done: nat, total: nat) -> nat {
    if total == 0 {
        0
    } else {
        (200 * done + total) / (2 * total)
    }
}

/// The share of the files that is done, in percent, rounded to the nearest
/// whole number.
pub fn percent_done(done: usize, total: usize) -> (r: usize)
    requires
        done * 100 <= usize::MAX,
    ensures
        r == percent(done as nat, total as nat),
{
    if total == 0 {
        return 0;
    }
    let r: u128 = (200 * done as u128 + total as u128) / (2 * total as u128);
    assert(r <= usize::MAX) by (nonlinear_arith)
        requires
            r == (200 * done + total) / (2 * total),
            100 * done <= usize::MAX,
            total >= 1,
    ;
    r as usize
}

/// The share of the files that is done, in percent, without what is left of a
/// whole number; none of no files.
pub open spec fn full_percent(done: nat, total: nat) -> nat {
    if total == 0 {
        0
    } else {
        100 * done / total
    }
}

/// What is said while a folder is zipped.
pub open spec fn zipping_text(name: Seq<char>, done: nat, total: nat) -> Seq<char> {
    "\rZipping '"@ + name + "' ... "@ + decimal_text(done) + "/"@ + decimal_text(total)
        + " files ("@ + decimal_text(full_percent(done, total)) + "%)   "@
}

/// What is said while a folder is zipped.
pub fn zipping_line(name: &str, done: usize, total: usize) -> (r: String)
    requires
        done * 100 <= usize::MAX,
    ensures
        r@ == zipping_text(name@, done as nat, total as nat),
{
    let mut out = "\rZipping '".to_owned();
    out.append(name);
    out.append("' ... ");
    out.append(decimal(done as u64).as_str());
    out.append("/");
    out.append(decimal(total as u64).as_str());
    out.append(" files (");
    let full: usize = if total == 0 {
        0
    } else {
        100 * done / total
    };
    out.append(decimal(full as u64).as_str());
    out.append("%)   ");
    out
}

/// What is said of a share that was just made.
pub open spec fn sharing_lines(item: SharedItem, port: u16) -> Seq<Seq<char>> {
    seq![
        "Sharing '"@ + item@.name + "' ("@ + size_text(item@.size as nat) + ") — ID: "@ + item@.id,
        "Browse at: https://0.0.0.0:"@ + decimal_text(port as nat) + "/"@,
        "SHA256: "@ + item@.checksum,
        "Press Ctrl+C to stop sharing."@,
    ]
}

/// What is said of a share that was just made.
pub fn sharing_report(item: &SharedItem, port: u16) -> (r: Vec<String>)
    ensures
        views(r@) == sharing_lines(*item, port),
{
    let mut first = "Sharing '".to_owned();
    first.append(item.name.as_str());
    first.append("' (");
    first.append(item.size_human().as_str());
    first.append(") — ID: ");
    first.append(item.id.as_str());
    let mut second = "Browse at: https://0.0.0.0:".to_owned();
    second.append(decimal(port as u64).as_str());
    second.append("/");
    let mut third = "SHA256: ".to_owned();
    third.append(item.checksum.as_str());
    let mut lines: Vec<String> = Vec::new();
    lines.push(first);
    lines.push(second);
    lines.push(third);
    lines.push("Press Ctrl+C to stop sharing.".to_owned());
    assert(views(lines@) =~= sharing_lines(*item, port));
    lines
}

/// The address in a `Host` header, without a port. The colons of an address
/// in brackets are its own.
pub open spec fn host_address(host: Seq<char>) -> Seq<char> {
    if "["@.is_prefix_of(host) {
        before(host, ']') + "]"@
    } else {
        before(host, ':')
    }
}

/// The URL with encryption of `path` on a host.
pub open spec fn secure_url(host: Seq<char>, port: u16, path: Seq<char>) -> Seq<char> {
    "https://"@ + host_address(host) + ":"@ + decimal_text(port as nat) + path
}

/// The URL with encryption to which a browser is sent that asked for `path`
/// without it.
pub fn redirect_url(host: &str, port: u16, path: &str) -> (r: String)
    ensures
        r@ == "https://"@ + host_address(host@) + ":"@ + decimal_text(port as nat) + path@,
        r@ == secure_url(host@, port, path@),
{
    let mut address: String;
    if starts_with(host, "[") {
        address = text_before(host, ']');
        address.append("]");
    } else {
        address = text_before(host, ':');
    }
    let mut out = "https://".to_owned();
    out.append(address.as_str());
    out.append(":");
    out.append(decimal(port as u64).as_str());
    out.append(path);
    out
}

// ---------------------------------------------------------------------------
// Laws
// ---------------------------------------------------------------------------

/// The percentage of what is done is the nearest whole number in the terminal,
/// and the whole part of it on the command line; both are nothing of nothing
/// and a hundred of all.
pub proof fn law_percentages(done: nat, total: nat)
    requires
        total > 0,
    ensures
        full_percent(done, total) * total <= 100 * done < (full_percent(done, total) + 1) * total,
        2 * (percent(done, total) * total) <= 200 * done + total,
        200 * done < 2 * (percent(done, total) * total) + total,
        percent(done, 0) == 0,
        full_percent(done, 0) == 0,
        percent(total, total) == 100,
        full_percent(total, total) == 100,
{
    let f = 100 * done / total;
    vstd::arithmetic::div_mod::lemma_fundamental_div_mod((100 * done) as int, total as int);
    assert(f * total <= 100 * done < (f + 1) * total) by (nonlinear_arith)
        requires
            100 * done == total * f + (100 * done) % total,
            0 <= (100 * done) % total < total,
    ;
    let n = 200 * done + total;
    let p = n / (2 * total);
    vstd::arithmetic::div_mod::lemma_fundamental_div_mod(n as int, (2 * total) as int);
    assert(2 * (p * total) <= n < 2 * (p * total) + 2 * total) by (nonlinear_arith)
        requires
            n == (2 * total) * p + n % (2 * total),
            0 <= n % (2 * total) < 2 * total,
    ;
    assert((100 * total) / total == 100) by (nonlinear_arith)
        requires
            total > 0,
    ;
    assert((200 * total + total) / (2 * total) == 100) by (nonlinear_arith)
        requires
            total > 0,
    ;
}

/// A browser that comes without encryption is sent to the same host, with
/// encryption: what stands before the port in its `Host` header, whether that is
/// a name or an address in brackets, and whether a port is given or not.
pub proof fn law_redirects_stay_on_the_host(name: Seq<char>, port: Seq<char>)
    requires
        !name.contains(':'),
        !name.contains('['),
    ensures
        host_address(name) == name,
        host_address(name + seq![':'] + port) == name,
        forall|inner: Seq<char>|
            !inner.contains(']') ==> #[trigger] host_address(
                seq!['['] + inner + seq![']'] + seq![':'] + port,
            ) == seq!['['] + inner + seq![']'],
{
    reveal_strlit("[");
    reveal_strlit("]");
    assert("["@ =~= seq!['[']);
    assert("]"@ =~= seq![']']);
    crate::text::law_parts_of_a_text(name, ':', port);
    let full = name + seq![':'] + port;
    if name.len() > 0 {
        assert(name.contains(name[0]));
        assert(full[0] == name[0]);
    } else {
        assert(full[0] == ':');
    }
    assert(!"["@.is_prefix_of(name)) by {
        if "["@.is_prefix_of(name) {
            assert(name.take(1)[0] == '[');
        }
    }
    assert(!"["@.is_prefix_of(full)) by {
        if "["@.is_prefix_of(full) {
            assert(full.take(1)[0] == '[');
        }
    }
    assert forall|inner: Seq<char>| !inner.contains(']') implies #[trigger] host_address(
        seq!['['] + inner + seq![']'] + seq![':'] + port,
    ) == seq!['['] + inner + seq![']'] by {
        let host = seq!['['] + inner + seq![']'] + seq![':'] + port;
        let front = seq!['['] + inner;
        assert(host =~= front + seq![']'] + (seq![':'] + port));
        assert(host.take(1) =~= "["@);
        assert forall|j: int| 0 <= j < front.len() implies front[j] != ']' by {
            if j > 0 {
                assert(front[j] == inner[j - 1]);
                assert(inner.contains(inner[j - 1]));
            }
        }
        crate::text::lemma_before_joined(front, ']', seq![':'] + port);
    }
}

/// What is said of a share tells its name, size, id and checksum, and where it
/// can be looked at.
pub proof fn law_sharing_is_reported(item: SharedItem, port: u16)
    ensures
        sharing_lines(item, port) == seq![
            "Sharing '"@ + item.name@ + "' ("@ + size_text(item.size as nat) + ") — ID: "@
                + item.id@,
            "Browse at: https://0.0.0.0:"@ + decimal_text(port as nat) + "/"@,
            "SHA256: "@ + item.checksum@,
            "Press Ctrl+C to stop sharing."@,
        ],
{
}

/// A browser is sent to the path that it asked for, on the host that it asked,
/// at the port with encryption, whatever port it asked.
pub proof fn law_redirects_keep_the_path(
    name: Seq<char>,
    old_port: Seq<char>,
    port: u16,
    path: Seq<char>,
)
    requires
        !name.contains(':'),
        !name.contains('['),
    ensures
        secure_url(name + seq![':'] + old_port, port, path) == "https://"@ + name + ":"@
            + decimal_text(port as nat) + path,
        secure_url(name, port, path) == "https://"@ + name + ":"@ + decimal_text(port as nat) + path,
{
    law_redirects_stay_on_the_host(name, old_port);
}

}
