//! The Debian-style package pipeline's computations: the architecture token
//! mapping, artifact naming, the control file and checksum manifest texts,
//! and the staged destination of every declared resource. The caller stages
//! files, archives the two subtrees and writes the container from these
//! values; every decision about their contents is made, and proved, here.
//!
//! The produced package is an `ar`-style container whose members are, in
//! order: `debian-binary` (the format version), `control.tar.gz` (the control
//! file and the checksum manifest) and `data.tar.gz` (the installed tree:
//! the binary under `usr/bin`, resources under `usr/lib/<binary>`).
use vstd::prelude::*;

use crate::file::normalized_path;
use crate::settings::Settings;
use crate::text::{
    concat_map, dec_rep, hex_seq, join_spec, lemma_concat_map_push, lines_spec,
    lower_char, trim_spec, bytes_to_hex, join_strings, lines_vec, trim_str, u64_to_string,
};

verus! {

// ---------- architecture mapping ----------

/// The Debian name of a target architecture token: the few renamed families,
/// every other token unchanged.
pub open spec fn map_arch_spec(a: Seq<char>) -> Seq<char> {
    if a == "x86"@ {
        "i386"@
    } else if a == "x86_64"@ {
        "amd64"@
    } else if a == "arm"@ {
        "armhf"@
    } else if a == "aarch64"@ {
        "arm64"@
    } else {
        a
    }
}

fn map_arch(arch: &str) -> (r: String)
    ensures
        r@ == map_arch_spec(arch@),
{
    let a = String::from_str(arch);
    proof {
        reveal_strlit("x86");
        reveal_strlit("x86_64");
        reveal_strlit("arm");
        reveal_strlit("aarch64");
    }
    if a.eq(&String::from_str("x86")) {
        String::from_str("i386")
    } else if a.eq(&String::from_str("x86_64")) {
        String::from_str("amd64")
    } else if a.eq(&String::from_str("arm")) {
        String::from_str("armhf")
    } else if a.eq(&String::from_str("aarch64")) {
        String::from_str("arm64")
    } else {
        a
    }
}

// ---------- installed size ----------

/// The Installed-Size field: the payload size in kibibytes, rounded up.
pub open spec fn installed_size_kib(total_bytes: nat) -> nat {
    (total_bytes + 1023) / 1024
}

/// The installed size rounds up: it covers the payload, and no smaller
/// kibibyte count does.
pub proof fn lemma_installed_size_rounds_up(total_bytes: nat)
    ensures
        installed_size_kib(total_bytes) * 1024 >= total_bytes,
        total_bytes > 0 ==> (installed_size_kib(total_bytes) - 1) * 1024 < total_bytes,
{
    let q = installed_size_kib(total_bytes);
    assert(q == (total_bytes + 1023) / 1024);
    assert(q * 1024 >= total_bytes && (total_bytes > 0 ==> (q - 1) * 1024 < total_bytes))
        by (nonlinear_arith)
        requires
            q == ((total_bytes + 1023) / 1024) as int,
            total_bytes >= 0,
    ;
}

fn installed_size(total_bytes: u64) -> (r: u64)
    ensures
        r as nat == installed_size_kib(total_bytes as nat),
{
    let r = total_bytes / 1024 + (if total_bytes % 1024 != 0 {
        1
    } else {
        0
    });
    proof {
        let t = total_bytes as int;
        assert(r as int == (t + 1023) / 1024) by (nonlinear_arith)
            requires
                0 <= t,
                r as int == t / 1024 + (if t % 1024 != 0 {
                    1int
                } else {
                    0int
                }),
        ;
    }
    r
}

// ---------- the control file ----------

/// A blank field is replaced by the literal placeholder.
pub open spec fn effective_desc(t: Seq<char>) -> Seq<char> {
    if t.len() == 0 {
        "(none)"@
    } else {
        t
    }
}

/// One line of the long description: trimmed and indented with a space, a
/// blank line becoming the `.` paragraph marker.
pub open spec fn desc_line(line: Seq<char>) -> Seq<char> {
    if trim_spec(line).len() == 0 {
        " .\n"@
    } else {
        " "@ + trim_spec(line) + "\n"@
    }
}

/// The sanitized package name: spaces become hyphens, everything lowercased.
pub open spec fn sanitize_name(s: Seq<char>) -> Seq<char> {
    s.map_values(
        |c: char|
            lower_char(
                if c == ' ' {
                    '-'
                } else {
                    c
                },
            ),
    )
}

/// The full control file: the mandatory fields, the optional homepage and
/// dependency lines, and the description block.
pub open spec fn control_text(s: Settings, arch: Seq<char>, total_data_bytes: nat) -> Seq<char> {
    "Package: "@ + sanitize_name(s.bundle_name@) + "\n"@ + "Version: "@ + s.version@ + "\n"@
        + "Architecture: "@ + arch + "\n"@ + "Installed-Size: "@ + dec_rep(
        installed_size_kib(total_data_bytes),
    ) + "\n"@ + "Maintainer: "@ + join_spec(s.authors.deep_view(), ", "@) + "\n"@ + (
    if s.homepage@.len() > 0 {
        "Homepage: "@ + s.homepage@ + "\n"@
    } else {
        Seq::<char>::empty()
    }) + (if s.debian_dependencies@.len() > 0 {
        "Depends: "@ + join_spec(s.debian_dependencies.deep_view(), ", "@) + "\n"@
    } else {
        Seq::<char>::empty()
    }) + "Description: "@ + effective_desc(trim_spec(s.short_description@)) + "\n"@ + concat_map(
        lines_spec(effective_desc(trim_spec(s.long_description@))),
        |l: Seq<char>| desc_line(l),
    )
}

/// Renders the control file for the package: name, version, architecture,
/// rounded-up installed size, maintainer, optional homepage and dependency
/// lines, and the reindented description block.
pub fn generate_control_file(settings: &Settings, arch: &str, total_data_bytes: u64) -> (r: String)
    ensures
        r@ == control_text(*settings, arch@, total_data_bytes as nat),
{
    let mut out = String::new();
    out.append("Package: ");
    let ghost bn = settings.bundle_name@;
    let n = settings.bundle_name.as_str().unicode_len();
    let mut i: usize = 0;
    while i < n
        invariant
            n == bn.len(),
            bn == settings.bundle_name@,
            i <= n,
            out@ =~= "Package: "@ + sanitize_name(bn.take(i as int)),
        decreases n - i,
    {
        let c = settings.bundle_name.as_str().get_char(i);
        if c == ' ' {
            out.append("-");
            proof {
                reveal_strlit("-");
            }
        } else if 'A' <= c && c <= 'Z' {
            out.append(crate::category::lower_ascii_str(c));
        } else {
            let piece = settings.bundle_name.as_str().substring_char(i, i + 1);
            out.append(piece);
            proof {
                assert(piece@ =~= seq![bn[i as int]]);
            }
        }
        i = i + 1;
        proof {
            assert(bn.take(i as int) =~= bn.take(i - 1).push(bn[i - 1]));
            assert(sanitize_name(bn.take(i as int)) =~= sanitize_name(bn.take(i - 1)).push(
                lower_char(
                    if bn[i - 1] == ' ' {
                        '-'
                    } else {
                        bn[i - 1]
                    },
                ),
            ));
            assert(out@ =~= "Package: "@ + sanitize_name(bn.take(i as int)));
        }
    }
    proof {
        assert(bn.take(n as int) =~= bn);
    }
    out.append("\nVersion: ");
    out.append(settings.version.as_str());
    out.append("\nArchitecture: ");
    out.append(arch);
    out.append("\nInstalled-Size: ");
    let size = installed_size(total_data_bytes);
    let size_str = u64_to_string(size);
    out.append(size_str.as_str());
    out.append("\nMaintainer: ");
    let maintainer = join_strings(&settings.authors, ", ");
    out.append(maintainer.as_str());
    out.append("\n");
    proof {
        reveal_strlit("Package: ");
        reveal_strlit("\nVersion: ");
        reveal_strlit("\nArchitecture: ");
        reveal_strlit("\nInstalled-Size: ");
        reveal_strlit("\nMaintainer: ");
        reveal_strlit("\n");
        reveal_strlit("Version: ");
        reveal_strlit("Architecture: ");
        reveal_strlit("Installed-Size: ");
        reveal_strlit("Maintainer: ");
        assert(out@ =~= "Package: "@ + sanitize_name(bn) + "\n"@ + "Version: "@
            + settings.version@ + "\n"@ + "Architecture: "@ + arch@ + "\n"@ + "Installed-Size: "@
            + dec_rep(installed_size_kib(total_data_bytes as nat)) + "\n"@ + "Maintainer: "@
            + join_spec(settings.authors.deep_view(), ", "@) + "\n"@);
    }
    let ghost head = out@;
    if settings.homepage.as_str().unicode_len() > 0 {
        out.append("Homepage: ");
        out.append(settings.homepage.as_str());
        out.append("\n");
        proof {
            reveal_strlit("Homepage: ");
            reveal_strlit("\n");
            assert(out@ =~= head + ("Homepage: "@ + settings.homepage@ + "\n"@));
        }
    } else {
        proof {
            assert(out@ =~= head + Seq::<char>::empty());
        }
    }
    let ghost head2 = out@;
    if settings.debian_dependencies.len() > 0 {
        out.append("Depends: ");
        let deps = join_strings(&settings.debian_dependencies, ", ");
        out.append(deps.as_str());
        out.append("\n");
        proof {
            reveal_strlit("Depends: ");
            reveal_strlit("\n");
            assert(out@ =~= head2 + ("Depends: "@ + join_spec(
                settings.debian_dependencies.deep_view(),
                ", "@,
            ) + "\n"@));
        }
    } else {
        proof {
            assert(out@ =~= head2 + Seq::<char>::empty());
        }
    }
    out.append("Description: ");
    let short_trimmed = trim_str(settings.short_description.as_str());
    if short_trimmed.as_str().unicode_len() > 0 {
        out.append(short_trimmed.as_str());
    } else {
        out.append("(none)");
        proof {
            reveal_strlit("(none)");
        }
    }
    out.append("\n");
    let ghost head3 = out@;
    proof {
        reveal_strlit("Description: ");
        reveal_strlit("\n");
        assert(head3 =~= head2 + (if settings.debian_dependencies@.len() > 0 {
            "Depends: "@ + join_spec(settings.debian_dependencies.deep_view(), ", "@) + "\n"@
        } else {
            Seq::<char>::empty()
        }) + "Description: "@ + effective_desc(trim_spec(settings.short_description@)) + "\n"@);
    }
    let long_trimmed = trim_str(settings.long_description.as_str());
    let long_eff = if long_trimmed.as_str().unicode_len() > 0 {
        long_trimmed
    } else {
        proof {
            reveal_strlit("(none)");
        }
        String::from_str("(none)")
    };
    proof {
        assert(long_eff@ == effective_desc(trim_spec(settings.long_description@)));
    }
    let ghost dlines = lines_spec(long_eff@);
    let lines = lines_vec(long_eff.as_str());
    let mut k: usize = 0;
    while k < lines.len()
        invariant
            lines.deep_view() == dlines,
            lines.deep_view().len() == lines@.len(),
            k <= lines@.len(),
            out@ =~= head3 + concat_map(dlines.take(k as int), |l: Seq<char>| desc_line(l)),
        decreases lines@.len() - k,
    {
        let ghost lk = dlines[k as int];
        proof {
            assert(lines@[k as int]@ == dlines[k as int]);
        }
        let trimmed = trim_str(lines[k].as_str());
        if trimmed.as_str().unicode_len() == 0 {
            out.append(" .\n");
            proof {
                reveal_strlit(" .\n");
                assert(desc_line(lk) == " .\n"@);
            }
        } else {
            out.append(" ");
            out.append(trimmed.as_str());
            out.append("\n");
            proof {
                reveal_strlit(" ");
                reveal_strlit("\n");
                assert(desc_line(lk) == " "@ + trim_spec(lk) + "\n"@);
            }
        }
        k = k + 1;
        proof {
            lemma_concat_map_push(dlines.take(k - 1), |l: Seq<char>| desc_line(l), lk);
            assert(dlines.take(k as int) =~= dlines.take(k - 1).push(lk));
            assert(out@ =~= head3 + concat_map(dlines.take(k as int), |l: Seq<char>| desc_line(l)));
        }
    }
    proof {
        assert(dlines.take(dlines.len() as int) =~= dlines);
        assert(out@ =~= control_text(*settings, arch@, total_data_bytes as nat));
    }
    out
}

// ---------- the checksum manifest ----------

/// The content digest of a byte string: a pure function of the bytes alone.
pub uninterp spec fn digest_of(data: Seq<u8>) -> Seq<u8>;

/// Relies on md5::compute: a deterministic digest of the input bytes alone,
/// always 16 bytes long, used for the package manager's legacy-compatible
/// integrity manifest (no security property is claimed of it).
#[verifier::external_body]
fn md5_digest(data: &Vec<u8>) -> (r: Vec<u8>)
    ensures
        r@ == digest_of(data@),
        r@.len() == 16,
{
    md5::compute(data.as_slice()).0.to_vec()
}

/// One file of the payload subtree: its digest and its path relative to the
/// payload root.
pub struct ManifestEntry {
    pub digest: Vec<u8>,
    pub rel_path: String,
}

/// Builds the manifest entry for one payload file from its contents: the
/// 16-byte content digest and the given relative path.
pub fn digest_entry(contents: &Vec<u8>, rel_path: String) -> (r: ManifestEntry)
    ensures
        r.digest@ == digest_of(contents@),
        r.digest@.len() == 16,
        r.rel_path@ == rel_path@,
{
    ManifestEntry { digest: md5_digest(contents), rel_path }
}

/// One manifest line: the digest in lowercase hex, two spaces, the path.
pub open spec fn md5sums_line(e: ManifestEntry) -> Seq<char> {
    hex_seq(e.digest@) + "  "@ + e.rel_path@ + "\n"@
}

pub open spec fn md5sums_text(es: Seq<ManifestEntry>) -> Seq<char> {
    concat_map(es, |e: ManifestEntry| md5sums_line(e))
}

/// Renders the checksum manifest: one line per payload file, in the given
/// order.
pub fn generate_md5sums(entries: &Vec<ManifestEntry>) -> (r: String)
    ensures
        r@ == md5sums_text(entries@),
{
    let mut out = String::new();
    let mut i: usize = 0;
    while i < entries.len()
        invariant
            i <= entries@.len(),
            out@ =~= md5sums_text(entries@.take(i as int)),
        decreases entries@.len() - i,
    {
        let hex = bytes_to_hex(&entries[i].digest);
        out.append(hex.as_str());
        out.append("  ");
        out.append(entries[i].rel_path.as_str());
        out.append("\n");
        i = i + 1;
        proof {
            reveal_strlit("  ");
            reveal_strlit("\n");
            lemma_concat_map_push(
                entries@.take(i - 1),
                |e: ManifestEntry| md5sums_line(e),
                entries@[i - 1],
            );
            assert(entries@.take(i as int) =~= entries@.take(i - 1).push(entries@[i - 1]));
            assert(out@ =~= md5sums_text(entries@.take(i as int)));
        }
    }
    proof {
        assert(entries@.take(entries@.len() as int) =~= entries@);
    }
    out
}

// ---------- resource staging ----------

/// Where a declared resource is staged below the payload root: under the
/// package's library directory, at its normalized relative path.
pub open spec fn resource_dest(binary_name: Seq<char>, src: Seq<char>) -> Seq<char> {
    "usr/lib/"@ + binary_name + "/"@ + normalized_path(src)
}

/// Computes, for every declared resource, the staged destination (relative
/// to the payload root) its bytes are copied to; the caller performs the
/// copies in this order.
pub fn transfer_resource_files(binary_name: &str, resources: &Vec<String>) -> (r: Vec<
    (String, String),
>)
    ensures
        r@.len() == resources@.len(),
        forall|i: int|
            0 <= i < r@.len() ==> (#[trigger] r@[i]).0@ == resources@[i]@ && r@[i].1@
                == resource_dest(binary_name@, resources@[i]@),
{
    let mut out: Vec<(String, String)> = Vec::new();
    let mut i: usize = 0;
    while i < resources.len()
        invariant
            i <= resources@.len(),
            out@.len() == i,
            forall|j: int|
                0 <= j < i ==> (#[trigger] out@[j]).0@ == resources@[j]@ && out@[j].1@
                    == resource_dest(binary_name@, resources@[j]@),
        decreases resources@.len() - i,
    {
        let src = resources[i].clone();
        let mut dest = String::from_str("usr/lib/");
        dest.append(binary_name);
        dest.append("/");
        let rel = crate::file::resource_relpath(resources[i].as_str());
        dest.append(rel.as_str());
        proof {
            reveal_strlit("usr/lib/");
            reveal_strlit("/");
            assert(dest@ =~= resource_dest(binary_name@, resources@[i as int]@));
        }
        out.push((src, dest));
        i = i + 1;
    }
    out
}

// ---------- the assembly plan ----------

/// The fixed content of the format version member.
pub open spec fn format_version() -> Seq<char> {
    "2.0\n"@
}

pub open spec fn package_base_name_spec(s: Settings) -> Seq<char> {
    s.binary_name@ + "_"@ + s.version@ + "_"@ + map_arch_spec(s.binary_arch@)
}

/// Everything about one deb assembly run that is fixed before any file is
/// staged: the artifact names, the mapped architecture, the staged location
/// of the binary, and the format version marker.
pub struct DebPlan {
    /// `<binary>_<version>_<arch>`: the staging directory's name.
    pub package_base_name: String,
    /// The artifact file name: the base name with the format suffix.
    pub package_name: String,
    /// The Debian architecture name.
    pub arch: String,
    /// Where the binary lands, relative to the payload root.
    pub binary_dest: String,
    /// The content of the `debian-binary` container member.
    pub debian_binary_content: String,
}

/// Plans one deb assembly run from the settings record: maps the
/// architecture token, names the artifact, and fixes the staged location of
/// the binary and the format version marker. The caller stages files,
/// archives the control and payload subtrees and packs the container in the
/// planned order.
pub fn bundle_project(settings: &Settings) -> (r: DebPlan)
    ensures
        r.arch@ == map_arch_spec(settings.binary_arch@),
        r.package_base_name@ == package_base_name_spec(*settings),
        r.package_name@ == package_base_name_spec(*settings) + ".deb"@,
        r.binary_dest@ == "usr/bin/"@ + settings.binary_name@,
        r.debian_binary_content@ == format_version(),
{
    let arch = map_arch(settings.binary_arch.as_str());
    let mut base = String::new();
    base.append(settings.binary_name.as_str());
    base.append("_");
    base.append(settings.version.as_str());
    base.append("_");
    base.append(arch.as_str());
    let mut package_name = base.clone();
    package_name.append(".deb");
    let mut binary_dest = String::from_str("usr/bin/");
    binary_dest.append(settings.binary_name.as_str());
    proof {
        reveal_strlit("_");
        reveal_strlit(".deb");
        reveal_strlit("usr/bin/");
        reveal_strlit("2.0\n");
        assert(base@ =~= package_base_name_spec(*settings));
        assert(package_name@ =~= package_base_name_spec(*settings) + ".deb"@);
        assert(binary_dest@ =~= "usr/bin/"@ + settings.binary_name@);
    }
    DebPlan {
        package_base_name: base,
        package_name,
        arch,
        binary_dest,
        debian_binary_content: String::from_str("2.0\n"),
    }
}

} // verus!

verus! {

/// The name of the container's format version member.
pub open spec fn debian_binary_name() -> Seq<u8> {
    seq![100u8, 101u8, 98u8, 105u8, 97u8, 110u8, 45u8, 98u8, 105u8, 110u8, 97u8, 114u8, 121u8]
}

/// The name of the container's control archive member.
pub open spec fn control_archive_name() -> Seq<u8> {
    seq![99u8, 111u8, 110u8, 116u8, 114u8, 111u8, 108u8, 46u8, 116u8, 97u8, 114u8, 46u8, 103u8, 122u8]
}

/// The name of the container's payload archive member.
pub open spec fn data_archive_name() -> Seq<u8> {
    seq![100u8, 97u8, 116u8, 97u8, 46u8, 116u8, 97u8, 114u8, 46u8, 103u8, 122u8]
}

/// The bytes of the format version marker, `2.0` and a newline.
pub open spec fn format_version_bytes() -> Seq<u8> {
    seq![50u8, 46u8, 48u8, 10u8]
}

/// The members of the final container, in the exact order the consuming
/// package manager requires: the format version marker first, then the
/// control archive, then the payload archive.
pub fn container_members(control_tar_gz: Vec<u8>, data_tar_gz: Vec<u8>) -> (r: Vec<
    crate::archive::ArchiveMember,
>)
    ensures
        r@.len() == 3,
        r@[0].name@ == debian_binary_name(),
        r@[0].data@ == format_version_bytes(),
        r@[1].name@ == control_archive_name(),
        r@[1].data@ == control_tar_gz@,
        r@[2].name@ == data_archive_name(),
        r@[2].data@ == data_tar_gz@,
        forall|i: int| 0 <= i < 3 ==> (#[trigger] r@[i]).name@.len() <= 16,
{
    let version_name: Vec<u8> = vec![100u8, 101, 98, 105, 97, 110, 45, 98, 105, 110, 97, 114, 121];
    let control_name: Vec<u8> = vec![99u8, 111, 110, 116, 114, 111, 108, 46, 116, 97, 114, 46, 103, 122];
    let data_name: Vec<u8> = vec![100u8, 97, 116, 97, 46, 116, 97, 114, 46, 103, 122];
    let version_data: Vec<u8> = vec![50u8, 46, 48, 10];
    proof {
        assert(version_name@ =~= debian_binary_name());
        assert(control_name@ =~= control_archive_name());
        assert(data_name@ =~= data_archive_name());
        assert(version_data@ =~= format_version_bytes());
    }
    let mut members: Vec<crate::archive::ArchiveMember> = Vec::new();
    members.push(crate::archive::ArchiveMember { name: version_name, data: version_data });
    members.push(crate::archive::ArchiveMember { name: control_name, data: control_tar_gz });
    members.push(crate::archive::ArchiveMember { name: data_name, data: data_tar_gz });
    members
}

} // verus!
