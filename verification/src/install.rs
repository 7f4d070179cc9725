//! The shell script that installs a client.

use vstd::prelude::*;

use crate::reply::{pairs, Reply, ReplyView};
use crate::state::AppState;
use crate::text::{chars_of, law_strip_takes_the_run, strip_end, text_of, without_end};

verus! {

/// The script up to the server's address.
pub const SCRIPT_HEAD: &'static str = "#!/bin/sh\nset -eu\nBASE=\"${TUNNELD_BASE:-";

/// The script behind the server's address.
pub const SCRIPT_TAIL: &'static str = "}\"
DEST=\"${TUNNELD_INSTALL_DEST:-/usr/local/bin/tunneld}\"
os=$(uname -s | tr '[:upper:]' '[:lower:]')
arch=$(uname -m)
case \"$arch\" in
  x86_64|amd64) arch=x86_64 ;;
  aarch64|arm64) arch=aarch64 ;;
  *) echo \"unsupported arch: $arch\" >&2; exit 1 ;;
esac
case \"$os\" in
  linux) name=\"tunneld-linux-${arch}\" ;;
  darwin) name=\"tunneld-darwin-${arch}\" ;;
  *) echo \"unsupported os: $os; for windows fetch tunneld-windows-${arch}.exe manually\" >&2; exit 1 ;;
esac
echo \"downloading ${BASE}/dl/${name} -> ${DEST}\"
if command -v curl >/dev/null 2>&1; then
  curl -fSL \"${BASE}/dl/${name}\" -o \"${DEST}.tmp\"
elif command -v wget >/dev/null 2>&1; then
  wget -O \"${DEST}.tmp\" \"${BASE}/dl/${name}\"
else
  echo \"need curl or wget\" >&2; exit 1
fi
chmod +x \"${DEST}.tmp\"
mv \"${DEST}.tmp\" \"${DEST}\"
\"${DEST}\" --version
";

/// The script of a server that is found at `base`.
pub open spec fn script(base: Seq<char>) -> Seq<char> {
    SCRIPT_HEAD@ + strip_end(base, '/') + SCRIPT_TAIL@
}

/// The answer with the script of a server that is found at `base`.
pub open spec fn script_reply(base: Seq<char>) -> ReplyView {
    ReplyView {
        status: 200,
        headers: seq![("content-type"@, "text/x-shellscript"@), ("cache-control"@, "no-store"@)],
        body: Some(script(base)),
    }
}

/// The answer with the script that installs a client of this server.
pub fn install_script(state: &AppState) -> (r: Reply)
    ensures
        r@ == script_reply(state@.public_base),
{
    let cs = chars_of(state.public_base());
    let base = text_of(without_end(&cs, '/'));
    let mut body = SCRIPT_HEAD.to_owned();
    body.append(base.as_str());
    body.append(SCRIPT_TAIL);
    let mut headers: Vec<(String, String)> = Vec::new();
    headers.push(("content-type".to_owned(), "text/x-shellscript".to_owned()));
    headers.push(("cache-control".to_owned(), "no-store".to_owned()));
    proof {
        assert(pairs(headers@) =~= seq![
            ("content-type"@, "text/x-shellscript"@),
            ("cache-control"@, "no-store"@),
        ]);
    }
    Reply { status: 200, headers, body: Some(body) }
}

/// The script names the server's address as it is, but for slashes behind it, and is the same
/// for all servers otherwise.
pub proof fn law_script_names_the_address(base: Seq<char>, slashes: Seq<char>)
    requires
        base.len() > 0 ==> base.last() != '/',
        forall|i: int| 0 <= i < slashes.len() ==> slashes[i] == '/',
    ensures
        script(base + slashes) == SCRIPT_HEAD@ + base + SCRIPT_TAIL@,
        script_reply(base + slashes).status == 200,
        script_reply(base + slashes).body == Some(script(base + slashes)),
        script_reply(base + slashes).headers == seq![
            ("content-type"@, "text/x-shellscript"@),
            ("cache-control"@, "no-store"@),
        ],
{
    let all = base + slashes;
    law_strip_takes_the_run(all, '/');
    let n = strip_end(all, '/').len() as int;
    if n > base.len() {
        assert(all[n - 1] == slashes[n - 1 - base.len()]);
        assert(strip_end(all, '/').last() == all[n - 1]);
    }
    if n < base.len() {
        assert(all[base.len() - 1] == base.last());
    }
    assert(all.take(n) =~= base);
}

} // verus!
