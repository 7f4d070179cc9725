use tunneld::install::install_script;
use tunneld::reply::{generic_404, generic_502, generic_504, health, unauth_as_404, Reply};
use tunneld::state::{run, Args};

const SCRIPT: &str = r#"#!/bin/sh
set -eu
BASE="${TUNNELD_BASE:-https://tunnel.le.ht}"
DEST="${TUNNELD_INSTALL_DEST:-/usr/local/bin/tunneld}"
os=$(uname -s | tr '[:upper:]' '[:lower:]')
arch=$(uname -m)
case "$arch" in
  x86_64|amd64) arch=x86_64 ;;
  aarch64|arm64) arch=aarch64 ;;
  *) echo "unsupported arch: $arch" >&2; exit 1 ;;
esac
case "$os" in
  linux) name="tunneld-linux-${arch}" ;;
  darwin) name="tunneld-darwin-${arch}" ;;
  *) echo "unsupported os: $os; for windows fetch tunneld-windows-${arch}.exe manually" >&2; exit 1 ;;
esac
echo "downloading ${BASE}/dl/${name} -> ${DEST}"
if command -v curl >/dev/null 2>&1; then
  curl -fSL "${BASE}/dl/${name}" -o "${DEST}.tmp"
elif command -v wget >/dev/null 2>&1; then
  wget -O "${DEST}.tmp" "${BASE}/dl/${name}"
else
  echo "need curl or wget" >&2; exit 1
fi
chmod +x "${DEST}.tmp"
mv "${DEST}.tmp" "${DEST}"
"${DEST}" --version
"#;

fn script_for(base: &str) -> Reply {
    let state = run(Args {
        secret: "0123456789abcdef".to_string(),
        domain: "tunnel.le.ht".to_string(),
        public_base: base.to_string(),
        data_public: "tunnel.le.ht:7844".to_string(),
    })
    .unwrap_or_else(|_| panic!("refused"));
    install_script(&state)
}

#[test]
fn script_of_a_server() {
    let r = script_for("https://tunnel.le.ht");
    assert_eq!(r.status, 200);
    assert_eq!(
        r.headers,
        vec![
            ("content-type".to_string(), "text/x-shellscript".to_string()),
            ("cache-control".to_string(), "no-store".to_string()),
        ]
    );
    assert_eq!(r.body.as_deref(), Some(SCRIPT));
}

#[test]
fn slashes_behind_the_address_are_dropped() {
    assert_eq!(script_for("https://tunnel.le.ht//").body.as_deref(), Some(SCRIPT));
    let bare = script_for("/").body.unwrap_or_default();
    assert!(bare.contains("BASE=\"${TUNNELD_BASE:-}\"\n"));
}

#[test]
fn answers_of_the_server() {
    let read = |r: Reply| (r.status, r.headers.len(), r.body.unwrap_or_default());
    assert_eq!(read(health()), (200, 0, "ok".to_string()));
    assert_eq!(read(generic_404()), (404, 0, "Not Found".to_string()));
    assert_eq!(read(unauth_as_404()), (404, 0, "Not Found".to_string()));
    assert_eq!(read(generic_502()), (502, 0, "Bad Gateway".to_string()));
    assert_eq!(read(generic_504()), (504, 0, "Gateway Timeout".to_string()));
    assert_eq!(read(Reply::bare(204)), (204, 0, String::new()));
}
