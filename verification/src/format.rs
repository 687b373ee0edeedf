//! Fixed-width layout of one hosts-file line: the address, padded with
//! spaces to a fixed column, then the hostname.

use vstd::prelude::*;
use vstd::string::StrSliceExecFns;
use vstd::string::StringExecFns;

verus! {

/// Column at which the hostname starts when the address is shorter.
pub const ADDRESS_COLUMN: usize = 18;

/// A run of `n` space characters.
pub open spec fn spaces(n: nat) -> Seq<char> {
    Seq::new(n, |i: int| ' ')
}

/// How many spaces follow an address of length `addr_len`: up to the fixed
/// column, and none at all once the address fills or overflows it.
pub open spec fn pad_len(addr_len: nat) -> nat {
    if addr_len >= ADDRESS_COLUMN as nat {
        0
    } else {
        (ADDRESS_COLUMN as nat - addr_len) as nat
    }
}

/// The full line: address, padding, hostname.
pub open spec fn formatted_line(addr: Seq<char>, name: Seq<char>) -> Seq<char> {
    addr + spaces(pad_len(addr.len())) + name
}

/// Render one line of the hosts file: `host` padded with spaces until the
/// address field is `ADDRESS_COLUMN` characters wide, then `name`. An
/// address at or beyond the column width gets no padding at all.
pub fn format_host(host: &str, name: &str) -> (r: String)
    ensures
        r@ == formatted_line(host@, name@),
{
    let mut r = String::from_str(host);
    let hlen = host.unicode_len();
    let pad: usize = if hlen >= ADDRESS_COLUMN {
        0
    } else {
        ADDRESS_COLUMN - hlen
    };
    let mut k: usize = 0;
    while k < pad
        invariant
            k <= pad,
            pad as nat == pad_len(host@.len()),
            r@ == host@ + spaces(k as nat),
        decreases pad - k,
    {
        r.append(" ");
        proof {
            reveal_strlit(" ");
            assert(spaces(k as nat) + " "@ =~= spaces((k + 1) as nat));
            assert(host@ + spaces(k as nat) + " "@ =~= host@ + spaces((k + 1) as nat));
        }
        k = k + 1;
    }
    r.append(name);
    proof {
        assert(r@ =~= formatted_line(host@, name@));
    }
    r
}

} // verus!
