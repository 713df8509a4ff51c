//! The catalog of cleanup targets available on a host.
use vstd::prelude::*;
use crate::cleanup_items::{views, CleanupItem, CleanupType, ItemView, RuleView};

verus! {

/// The per-user directories of a host that the catalog is built from.
#[derive(Clone, Debug)]
pub struct HostDirs {
    pub temp_dir: String,
    pub cache_dir: Option<String>,
    pub data_local_dir: Option<String>,
    pub home_dir: Option<String>,
    /// Whether the host runs Windows (some targets exist only there).
    pub windows: bool,
}

/// Host directories as character sequences.
pub struct HostView {
    pub temp_dir: Seq<char>,
    pub cache_dir: Option<Seq<char>>,
    pub data_local_dir: Option<Seq<char>>,
    pub home_dir: Option<Seq<char>>,
    pub windows: bool,
}

pub open spec fn opt_view(o: Option<String>) -> Option<Seq<char>> {
    match o {
        Some(s) => Some(s@),
        None => None,
    }
}

impl View for HostDirs {
    type V = HostView;

    open spec fn view(&self) -> HostView {
        HostView {
            temp_dir: self.temp_dir@,
            cache_dir: opt_view(self.cache_dir),
            data_local_dir: opt_view(self.data_local_dir),
            home_dir: opt_view(self.home_dir),
            windows: self.windows,
        }
    }
}

/// The path separator of the host.
pub open spec fn separator(windows: bool) -> char {
    if windows {
        '\\'
    } else {
        '/'
    }
}

/// `rel` appended to `base`, with one separator between them.
pub open spec fn path_join(base: Seq<char>, rel: Seq<char>, sep: char) -> Seq<char> {
    if base.len() == 0 {
        rel
    } else if base[base.len() - 1] == sep {
        base + rel
    } else {
        base + seq![sep] + rel
    }
}

pub open spec fn one_item(id: Seq<char>, name: Seq<char>, description: Seq<char>, path: Seq<char>, enabled: bool) -> Seq<ItemView> {
    seq![ItemView { id, name, description, rule: RuleView::Directory(path), enabled }]
}

/// A target below an optional base directory: present only on the right
/// platform and when the base directory is known.
pub open spec fn item_below(
    present: bool,
    base: Option<Seq<char>>,
    rel: Seq<char>,
    sep: char,
    id: Seq<char>,
    name: Seq<char>,
    description: Seq<char>,
) -> Seq<ItemView> {
    if present && base is Some {
        one_item(id, name, description, path_join(base->0, rel, sep), false)
    } else {
        Seq::empty()
    }
}

pub open spec fn part_temp(h: HostView) -> Seq<ItemView> {
    one_item("temp_files"@, "临时文件目录"@, "系统临时文件目录: "@ + h.temp_dir, h.temp_dir, true)
}

pub open spec fn part_prefetch(h: HostView) -> Seq<ItemView> {
    if h.windows {
        one_item(
            "prefetch"@,
            "Windows Prefetch"@,
            "Windows 预读文件缓存"@,
            "C:\\Windows\\Prefetch"@,
            true,
        )
    } else {
        Seq::empty()
    }
}

pub open spec fn part_chrome(h: HostView) -> Seq<ItemView> {
    item_below(
        h.windows,
        h.data_local_dir,
        "Google\\Chrome\\User Data\\Default\\Cache"@,
        separator(h.windows),
        "chrome_cache"@,
        "Chrome 缓存"@,
        "Chrome 浏览器缓存文件"@,
    )
}

pub open spec fn part_vscode(h: HostView) -> Seq<ItemView> {
    item_below(
        true,
        h.cache_dir,
        "Code"@,
        separator(h.windows),
        "vscode_cache"@,
        "VS Code 缓存"@,
        "Visual Studio Code 缓存文件"@,
    )
}

pub open spec fn part_cargo(h: HostView) -> Seq<ItemView> {
    item_below(
        h.windows,
        h.home_dir,
        ".cargo\\registry\\cache"@,
        separator(h.windows),
        "cargo_cache"@,
        "Cargo 缓存"@,
        "Rust Cargo 包管理器缓存"@,
    )
}

pub open spec fn part_npm(h: HostView) -> Seq<ItemView> {
    item_below(
        h.windows,
        h.home_dir,
        "AppData\\Roaming\\npm-cache"@,
        separator(h.windows),
        "npm_cache"@,
        "NPM 缓存"@,
        "Node.js NPM 包管理器缓存"@,
    )
}

pub open spec fn part_logs(h: HostView) -> Seq<ItemView> {
    seq![
        ItemView {
            id: "log_files"@,
            name: "日志文件"@,
            description: "临时目录中的日志文件"@,
            rule: RuleView::TempFiles(h.temp_dir),
            enabled: true,
        },
    ]
}

pub open spec fn part_thumbnails(h: HostView) -> Seq<ItemView> {
    item_below(
        h.windows,
        h.data_local_dir,
        "Microsoft\\Windows\\Explorer"@,
        separator(h.windows),
        "thumbnail_cache"@,
        "缩略图缓存"@,
        "Windows 文件缩略图缓存"@,
    )
}

pub open spec fn part_recent(h: HostView) -> Seq<ItemView> {
    item_below(
        h.windows,
        h.data_local_dir,
        "Microsoft\\Windows\\Recent"@,
        separator(h.windows),
        "recent_docs"@,
        "最近文档"@,
        "Windows 最近访问的文档列表"@,
    )
}

/// The catalog of a host, in display order.
pub open spec fn catalog_spec(h: HostView) -> Seq<ItemView> {
    part_temp(h) + part_prefetch(h) + part_chrome(h) + part_vscode(h) + part_cargo(h) + part_npm(h)
        + part_logs(h) + part_thumbnails(h) + part_recent(h)
}

/// Joins a relative path onto a base directory with the host's separator.
pub fn join_path(base: &String, rel: &str, windows: bool) -> (r: String)
    ensures
        r@ == path_join(base@, rel@, separator(windows)),
{
    let n = base.as_str().unicode_len();
    if n == 0 {
        return String::from_str(rel);
    }
    let last = base.as_str().get_char(n - 1);
    let sep_char = if windows {
        '\\'
    } else {
        '/'
    };
    if last == sep_char {
        base.clone().concat(rel)
    } else {
        proof {
            reveal_strlit("\\");
            reveal_strlit("/");
        }
        let sep = if windows {
            "\\"
        } else {
            "/"
        };
        assert(sep@ =~= seq![separator(windows)]);
        base.clone().concat(sep).concat(rel)
    }
}

fn push_item(
    items: &mut Vec<CleanupItem>,
    id: &str,
    name: &str,
    description: String,
    cleanup_type: CleanupType,
    enabled: bool,
)
    ensures
        views(final(items)@) == views(old(items)@) + seq![
            ItemView {
                id: id@,
                name: name@,
                description: description@,
                rule: cleanup_type@,
                enabled,
            },
        ],
{
    let item = CleanupItem {
        id: String::from_str(id),
        name: String::from_str(name),
        description,
        cleanup_type,
        enabled,
    };
    items.push(item);
    assert(views(items@) =~= views(old(items)@) + seq![item@]);
}

/// Adds the target below an optional base directory, when present.
fn push_item_below(
    items: &mut Vec<CleanupItem>,
    present: bool,
    base: &Option<String>,
    rel: &str,
    windows: bool,
    id: &str,
    name: &str,
    description: &str,
)
    ensures
        views(final(items)@) == views(old(items)@) + item_below(
            present,
            opt_view(*base),
            rel@,
            separator(windows),
            id@,
            name@,
            description@,
        ),
{
    if present {
        if let Some(b) = base {
            let path = join_path(b, rel, windows);
            push_item(
                items,
                id,
                name,
                String::from_str(description),
                CleanupType::Directory(path),
                false,
            );
            return;
        }
    }
    assert(views(items@) =~= views(old(items)@) + Seq::<ItemView>::empty());
}

/// Builds the catalog of cleanup targets of a host, in display order.
pub fn build_catalog(host: &HostDirs) -> (r: Vec<CleanupItem>)
    ensures
        views(r@) == catalog_spec(host@),
{
    let h = Ghost(host@);
    let w = host.windows;
    let mut r: Vec<CleanupItem> = Vec::new();
    assert(views(r@) =~= Seq::<ItemView>::empty());
    push_item(
        &mut r,
        "temp_files",
        "临时文件目录",
        String::from_str("系统临时文件目录: ").concat(host.temp_dir.as_str()),
        CleanupType::Directory(host.temp_dir.clone()),
        true,
    );
    assert(views(r@) =~= part_temp(h@));
    if w {
        push_item(
            &mut r,
            "prefetch",
            "Windows Prefetch",
            String::from_str("Windows 预读文件缓存"),
            CleanupType::Directory(String::from_str("C:\\Windows\\Prefetch")),
            true,
        );
    }
    assert(views(r@) =~= part_temp(h@) + part_prefetch(h@));
    push_item_below(
        &mut r,
        w,
        &host.data_local_dir,
        "Google\\Chrome\\User Data\\Default\\Cache",
        w,
        "chrome_cache",
        "Chrome 缓存",
        "Chrome 浏览器缓存文件",
    );
    push_item_below(
        &mut r,
        true,
        &host.cache_dir,
        "Code",
        w,
        "vscode_cache",
        "VS Code 缓存",
        "Visual Studio Code 缓存文件",
    );
    push_item_below(
        &mut r,
        w,
        &host.home_dir,
        ".cargo\\registry\\cache",
        w,
        "cargo_cache",
        "Cargo 缓存",
        "Rust Cargo 包管理器缓存",
    );
    push_item_below(
        &mut r,
        w,
        &host.home_dir,
        "AppData\\Roaming\\npm-cache",
        w,
        "npm_cache",
        "NPM 缓存",
        "Node.js NPM 包管理器缓存",
    );
    push_item(
        &mut r,
        "log_files",
        "日志文件",
        String::from_str("临时目录中的日志文件"),
        CleanupType::TempFiles(host.temp_dir.clone()),
        true,
    );
    push_item_below(
        &mut r,
        w,
        &host.data_local_dir,
        "Microsoft\\Windows\\Explorer",
        w,
        "thumbnail_cache",
        "缩略图缓存",
        "Windows 文件缩略图缓存",
    );
    push_item_below(
        &mut r,
        w,
        &host.data_local_dir,
        "Microsoft\\Windows\\Recent",
        w,
        "recent_docs",
        "最近文档",
        "Windows 最近访问的文档列表",
    );
    assert(views(r@) =~= catalog_spec(h@));
    r
}

/// Relies on dirs::cache_dir: the user's cache directory, when the platform
/// and the environment give one.
#[verifier::external_body]
fn user_cache_dir() -> (r: Option<String>) {
    dirs::cache_dir().map(|p| p.to_string_lossy().into_owned())
}

/// Relies on dirs::data_local_dir: the user's local data directory, when the
/// platform and the environment give one.
#[verifier::external_body]
fn user_data_local_dir() -> (r: Option<String>) {
    dirs::data_local_dir().map(|p| p.to_string_lossy().into_owned())
}

/// Relies on dirs::home_dir: the user's home directory, when the platform
/// and the environment give one.
#[verifier::external_body]
fn user_home_dir() -> (r: Option<String>) {
    dirs::home_dir().map(|p| p.to_string_lossy().into_owned())
}

/// All cleanup targets available on this host, given its temp directory and
/// whether it runs Windows; the per-user directories come from the
/// environment.
pub fn get_all_cleanup_items(temp_dir: String, windows: bool) -> (r: Vec<CleanupItem>)
    ensures
        exists|h: HostView|
            h.temp_dir == temp_dir@ && h.windows == windows && views(r@) == catalog_spec(h),
{
    let host = HostDirs {
        temp_dir,
        cache_dir: user_cache_dir(),
        data_local_dir: user_data_local_dir(),
        home_dir: user_home_dir(),
        windows,
    };
    build_catalog(&host)
}

} // verus!
