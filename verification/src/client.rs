//! The addresses that the command-line client talks to.

use vstd::prelude::*;
use vstd::string::StringExecFns;

verus! {

/// The server that the client talks to: `http://localhost:8080`.
pub open spec fn server_base() -> Seq<char> {
    seq!['h', 't', 't', 'p', ':', '/', '/', 'l', 'o', 'c', 'a', 'l', 'h', 'o', 's', 't', ':', '8', '0', '8', '0']
}

pub open spec fn objects_route() -> Seq<char> {
    seq!['/', 'o', 'b', 'j', 'e', 'c', 't', 's']
}

fn base_url() -> (u: String)
    ensures
        u@ == server_base(),
{
    let b: &str = "http://localhost:8080";
    proof {
        reveal_strlit("http://localhost:8080");
    }
    b.to_owned()
}

/// Where an upload is posted: `<server>/objects`, followed by `?name=<name>`
/// when a name is given (the name is put in as it is).
pub fn upload_url(name: Option<&str>) -> (u: String)
    ensures
        u@ == match name {
            Some(n) => server_base() + objects_route() + seq!['?', 'n', 'a', 'm', 'e', '='] + n@,
            None => server_base() + objects_route(),
        },
{
    let mut u = base_url();
    u.append("/objects");
    proof {
        reveal_strlit("/objects");
    }
    match name {
        Some(n) => {
            u.append("?name=");
            u.append(n);
            proof {
                reveal_strlit("?name=");
            }
        },
        None => {},
    }
    u
}

/// Where an object is downloaded from: `<server>/objects/<cid>`.
pub fn object_url(cid: &str) -> (u: String)
    ensures
        u@ == server_base() + objects_route() + seq!['/'] + cid@,
{
    let mut u = base_url();
    u.append("/objects/");
    u.append(cid);
    proof {
        reveal_strlit("/objects/");
        assert(u@ =~= server_base() + objects_route() + seq!['/'] + cid@);
    }
    u
}

/// Where the metrics are read: `<server>/metrics`.
pub fn metrics_url() -> (u: String)
    ensures
        u@ == server_base() + seq!['/', 'm', 'e', 't', 'r', 'i', 'c', 's'],
{
    let mut u = base_url();
    u.append("/metrics");
    proof {
        reveal_strlit("/metrics");
    }
    u
}

} // verus!
