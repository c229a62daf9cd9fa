//! What holds of what the node tells of itself.

use crate::environment::{self, Environment};
use crate::paths;
use crate::system_info::gpu;
use crate::system_info::mac::{self, InterfaceAddress};
use crate::system_info::version::{self, VersionView};
use crate::system_info::{self, GpuInfo, SystemFacts, SystemInfo, VersionMetadata};
use crate::text::laws;
use crate::text::{ascii, chars, edit, number, search, split, trim};
use crate::wireguard::WireGuardStatus;
use vstd::prelude::*;
use vstd::utf8::{decode_utf8, valid_utf8};

verus! {

/// The node tells what the system tells of it. What the system does not tell is unknown, and a
/// node has a processor and memory in any case.
pub proof fn node_tells_what_it_is(
    facts: SystemFacts,
    version: Option<VersionMetadata>,
    wireguard: Option<WireGuardStatus>,
    gpus: Vec<GpuInfo>,
    info: SystemInfo,
)
    requires
        system_info::describes(facts, version, wireguard, gpus, info),
    ensures
        info.os_platform@ == facts.os_platform@,
        info.os_arch@ == facts.os_arch@,
        facts.kernel_version matches Some(text) ==> info.os_release@ == text@,
        facts.kernel_version is None ==> info.os_release@ == "unknown"@,
        facts.host_name matches Some(text) ==> info.hostname@ == text@,
        facts.host_name is None ==> info.hostname@ == "unknown"@,
        facts.cpu_brand matches Some(text) ==> (trim::trim(text@).len() > 0 ==> info.cpu_model@
            == trim::trim(text@)),
        facts.cpu_brand is None ==> info.cpu_model@ == "unknown"@,
        0 < facts.cpu_count <= u32::MAX ==> info.cpu_cores == facts.cpu_count,
        facts.cpu_count == 0 ==> info.cpu_cores == 1,
        facts.total_memory > 0 ==> info.mem_total == facts.total_memory,
        facts.total_memory == 0 ==> info.mem_total == 1,
        version is None ==> info.agent_version is None && info.agent_commit is None
            && info.agent_built_at is None,
        version matches Some(v) ==> info.agent_version == Some(v.version) && info.agent_commit
            == v.commit && info.agent_built_at == v.built_at,
        info.wireguard == wireguard,
        info.gpus == gpus,
{
    if facts.cpu_count <= u32::MAX {
        assert(facts.cpu_count as nat % 0x1_0000_0000 == facts.cpu_count);
    }
}

/// What a tool gives counts where it ended well and wrote a text that is not blank.
pub proof fn tool_is_believed_where_it_ends_well(success: bool, stdout: Seq<u8>)
    ensures
        system_info::tool_text(success, stdout) is Some <==> success && valid_utf8(stdout)
            && trim::trim(decode_utf8(stdout)).len() > 0,
        system_info::tool_text(success, stdout) matches Some(text) ==> text == trim::trim(
            decode_utf8(stdout),
        ),
{
}

proof fn lemma_hex_parts(a: Seq<char>, b: Seq<char>)
    ensures
        mac::hex_digits(a + b) == mac::hex_digits(a) + mac::hex_digits(b),
    decreases b.len(),
{
    if b.len() == 0 {
        assert(a + b =~= a);
        assert(mac::hex_digits(a) + mac::hex_digits(b) =~= mac::hex_digits(a));
    } else {
        lemma_hex_parts(a, b.drop_last());
        assert((a + b).drop_last() =~= a + b.drop_last());
        assert((a + b).last() == b.last());
        assert(mac::hex_digits(a + b) =~= mac::hex_digits(a) + mac::hex_digits(b));
    }
}

proof fn lemma_hex_lower(s: Seq<char>)
    ensures
        mac::hex_digits(edit::lower_text(s)) == mac::hex_digits(s),
    decreases s.len(),
{
    if s.len() > 0 {
        let low = edit::lower_text(s);
        assert(low.drop_last() =~= edit::lower_text(s.drop_last()));
        lemma_hex_lower(s.drop_last());
    }
}

proof fn lemma_all_hex(s: Seq<char>)
    requires
        forall|i: int| 0 <= i < s.len() ==> ascii::hex_digit(#[trigger] s[i]),
    ensures
        mac::hex_digits(s) == edit::lower_text(s),
    decreases s.len(),
{
    if s.len() > 0 {
        let d = s.drop_last();
        assert forall|i: int| 0 <= i < d.len() implies ascii::hex_digit(#[trigger] d[i]) by {
            assert(d[i] == s[i]);
        }
        lemma_all_hex(d);
        assert(ascii::hex_digit(s[s.len() - 1]));
        assert(mac::hex_digits(s) =~= edit::lower_text(s));
    } else {
        assert(mac::hex_digits(s) =~= edit::lower_text(s));
    }
}

/// Neither the case of the digits of a hardware address nor what stands between them makes a
/// difference.
pub proof fn address_is_its_digits(a: Seq<char>, c: char, b: Seq<char>)
    ensures
        mac::normal(edit::lower_text(a)) == mac::normal(a),
        !ascii::hex_digit(c) ==> mac::normal(a + seq![c] + b) == mac::normal(a + b),
{
    lemma_hex_lower(a);
    lemma_hex_parts(a + seq![c], b);
    lemma_hex_parts(a, seq![c]);
    lemma_hex_parts(a, b);
    assert(seq![c].drop_last() =~= seq![]);
    if !ascii::hex_digit(c) {
        assert(mac::hex_digits(seq![]) =~= seq![]);
        assert(mac::hex_digits(seq![c]) =~= seq![]);
        assert(mac::hex_digits(a) + mac::hex_digits(seq![c]) =~= mac::hex_digits(a));
    }
}

/// Twelve hexadecimal digits are a hardware address, which is written in pairs with colons between
/// them and in lower case; fewer or more are none.
pub proof fn twelve_digits_are_an_address(digits: Seq<char>)
    requires
        forall|i: int| 0 <= i < digits.len() ==> ascii::hex_digit(#[trigger] digits[i]),
    ensures
        mac::normal(digits) is Some <==> digits.len() == 12,
        mac::normal(digits) matches Some(address) ==> {
            &&& address.len() == 17
            &&& forall|k: int|
                0 <= k < 6 ==> #[trigger] address[3 * k] == ascii::lower(digits[2 * k])
            &&& forall|k: int|
                0 <= k < 6 ==> #[trigger] address[3 * k + 1] == ascii::lower(digits[2 * k + 1])
            &&& forall|k: int| 0 <= k < 5 ==> #[trigger] address[3 * k + 2] == ':'
        },
{
    lemma_all_hex(digits);
}

/// The node tells the address of each interface that has one, but for the loopback and for
/// addresses that are all zero; and no other.
pub proof fn addresses_of_interfaces_are_told(interfaces: Seq<InterfaceAddress>, address: Seq<char>)
    ensures
        mac::told_all(interfaces).contains(address) <==> exists|i: int|
            0 <= i < interfaces.len() && has_address(#[trigger] interfaces[i], address),
    decreases interfaces.len(),
{
    if interfaces.len() > 0 {
        let before = interfaces.drop_last();
        let last = interfaces.len() - 1;
        addresses_of_interfaces_are_told(before, address);
        if mac::told_all(interfaces).contains(address) {
            if mac::told_all(before).contains(address) {
                let i = choose|i: int|
                    0 <= i < before.len() && has_address(#[trigger] before[i], address);
                assert(interfaces[i] == before[i]);
            } else {
                assert(has_address(interfaces[last], address));
            }
        }
        if exists|i: int| 0 <= i < interfaces.len() && has_address(#[trigger] interfaces[i], address)
        {
            let i = choose|i: int|
                0 <= i < interfaces.len() && has_address(#[trigger] interfaces[i], address);
            if i < last {
                assert(before[i] == interfaces[i]);
            }
        }
    }
}

/// An interface other than the loopback has an address that is not all zero.
pub open spec fn has_address(interface: InterfaceAddress, address: Seq<char>) -> bool {
    &&& interface.name@ != "lo"@
    &&& interface.address matches Some(raw) && mac::normal(raw@) == Some(address)
    &&& address != "00:00:00:00:00:00"@
}

/// The file of the version is looked for where the environment says, then in the current
/// directory, then beside the program.
pub proof fn version_file_is_looked_for(env: &Environment, program_dir: Option<Seq<char>>)
    ensures
        ({
            let named = environment::set_var(env, "STATIX_VERSION_FILE"@);
            let paths = version::candidates(env, program_dir);
            let n = if named is Some {
                1int
            } else {
                0
            };
            &&& named matches Some(path) ==> paths[0] == path
            &&& paths[n] == "version.json"@
            &&& program_dir matches Some(dir) ==> paths.len() == n + 2 && paths[n + 1]
                == paths::join(dir, "version.json"@)
            &&& program_dir is None ==> paths.len() == n + 1
        }),
{
}

/// The version that is told is that of the first file that tells one.
pub proof fn first_file_tells_the_version(files: Seq<Option<VersionMetadata>>, i: int)
    requires
        0 <= i <= files.len(),
        forall|j: int| 0 <= j < i ==> !tells_version(#[trigger] files[j]),
    ensures
        i < files.len() && tells_version(files[i]) ==> version::first_version(files)
            == version::tidy(files[i]->Some_0@),
        i == files.len() ==> version::first_version(files) is None,
    decreases files.len(),
{
    if files.len() > 0 {
        let before = files.drop_last();
        if i < before.len() {
            assert forall|j: int| 0 <= j < i implies !tells_version(#[trigger] before[j]) by {
                assert(before[j] == files[j]);
            }
            first_file_tells_the_version(before, i);
            assert(before[i] == files[i]);
        } else {
            assert forall|j: int| 0 <= j < before.len() implies !tells_version(
                #[trigger] before[j],
            ) by {
                assert(before[j] == files[j]);
            }
            first_file_tells_the_version(before, before.len() as int);
            if i == files.len() {
                assert(!tells_version(files[i - 1]));
            }
        }
    }
}

/// A file tells a version: one that is not blank.
pub open spec fn tells_version(file: Option<VersionMetadata>) -> bool {
    file matches Some(told) && trim::trim(told.version@).len() > 0
}

/// A version is told without the blanks around it; so are its commit and its date, and a blank
/// date is none.
pub proof fn version_is_told_without_blanks(told: VersionView)
    requires
        trim::trim(told.version).len() > 0,
    ensures
        version::tidy(told) matches Some(tidy) && {
            &&& tidy.version == trim::trim(told.version)
            &&& told.commit is None ==> tidy.commit is None
            &&& told.commit matches Some(text) ==> tidy.commit == Some(trim::trim(text))
            &&& told.built_at is None ==> tidy.built_at is None
            &&& told.built_at matches Some(text) ==> (trim::trim(text).len() > 0 ==> tidy.built_at
                == Some(trim::trim(text)))
            &&& told.built_at matches Some(text) ==> (trim::trim(text).len() == 0 ==> tidy.built_at
                is None)
        },
{
}

/// A line of `nvidia-smi` has the name of a processor, its memory in megabytes and the version of
/// its driver, separated by commas.
pub proof fn nvidia_line_is_read(fields: Seq<Seq<char>>, megabytes: nat)
    requires
        fields.len() == 3,
        forall|i: int| 0 <= i < fields.len() ==> laws::lacks(#[trigger] fields[i], ','),
        trim::trim(fields[0]).len() > 0,
        number::parse(trim::trim(fields[1]), u64::MAX as nat) == Some(megabytes),
        megabytes * 1024 * 1024 <= u64::MAX,
    ensures
        gpu::nvidia_line(split::join(fields, seq![','])) matches Some(told) && {
            &&& told.name == trim::trim(fields[0])
            &&& told.vendor == Some("NVIDIA"@)
            &&& told.memory_bytes matches Some(bytes) && bytes == megabytes * 1024 * 1024
            &&& trim::trim(fields[2]).len() > 0 ==> told.driver_version == Some(
                trim::trim(fields[2]),
            )
            &&& trim::trim(fields[2]).len() == 0 ==> told.driver_version is None
        },
{
    laws::pieces_are_read_back(fields, ',');
}

/// Each line tells its own processor, in the order of the lines.
pub proof fn processors_are_listed(first: Seq<Seq<char>>, second: Seq<Seq<char>>, line: Seq<char>)
    ensures
        gpu::nvidia_lines(first + second) == gpu::nvidia_lines(first) + gpu::nvidia_lines(second),
        gpu::pci_lines(first + second) == gpu::pci_lines(first) + gpu::pci_lines(second),
        gpu::nvidia_lines(seq![line]) == match gpu::nvidia_line(line) {
            Some(told) => seq![told],
            None => seq![],
        },
        gpu::pci_lines(seq![line]) == if gpu::is_display(line) {
            seq![gpu::pci_gpu(line)]
        } else {
            seq![]
        },
    decreases second.len(),
{
    assert(seq![line].drop_last() =~= seq![]);
    assert(gpu::nvidia_lines(seq![]) =~= seq![]);
    assert(gpu::pci_lines(seq![]) =~= seq![]);
    assert(gpu::nvidia_lines(seq![line]) =~= match gpu::nvidia_line(line) {
        Some(told) => seq![told],
        None => seq![],
    });
    assert(gpu::pci_lines(seq![line]) =~= if gpu::is_display(line) {
        seq![gpu::pci_gpu(line)]
    } else {
        seq![]
    });
    if second.len() == 0 {
        assert(first + second =~= first);
        assert(gpu::nvidia_lines(first) + gpu::nvidia_lines(second) =~= gpu::nvidia_lines(first));
        assert(gpu::pci_lines(first) + gpu::pci_lines(second) =~= gpu::pci_lines(first));
    } else {
        let d = second.drop_last();
        processors_are_listed(first, d, line);
        assert((first + second).drop_last() =~= first + d);
        assert((first + second).last() == second.last());
        assert(gpu::nvidia_lines(first + second) =~= gpu::nvidia_lines(first) + gpu::nvidia_lines(
            second,
        ));
        assert(gpu::pci_lines(first + second) =~= gpu::pci_lines(first) + gpu::pci_lines(second));
    }
}

/// A line of `lspci` tells of a graphics processor where it names the class of one, in whatever
/// case and whatever it says besides.
pub proof fn display_line_is_recognised(before: Seq<char>, class: Seq<char>, after: Seq<char>)
    requires
        edit::lower_text(class) == "vga compatible controller"@ || edit::lower_text(class)
            == "3d controller"@ || edit::lower_text(class) == "display controller"@,
    ensures
        gpu::is_display(before + class + after),
{
    let said = edit::lower_text(before + class + after);
    let p = edit::lower_text(class);
    let i = before.len() as int;
    assert(said.subrange(i, i + p.len()) =~= p);
    assert(search::occurs_at(said, p, i));
}

/// A graphics processor of `lspci` is named by what stands behind the first colon of its line,
/// and one whose name holds that of its maker is theirs.
pub proof fn display_line_is_read(slot: Seq<char>, name: Seq<char>)
    requires
        laws::lacks(slot, ':'),
    ensures
        ({
            let told = gpu::pci_gpu(slot + seq![':'] + name);
            &&& trim::trim(name).len() > 0 ==> told.name == trim::trim(name)
            &&& trim::trim(name).len() == 0 ==> told.name == "GPU"@
            &&& told.memory_bytes is None
            &&& told.driver_version is None
            &&& search::contains(edit::lower_text(told.name), "nvidia"@) ==> told.vendor == Some(
                "NVIDIA"@,
            )
            &&& !search::contains(edit::lower_text(told.name), "nvidia"@) && search::contains(
                edit::lower_text(told.name),
                "advanced micro devices"@,
            ) ==> told.vendor == Some("AMD"@)
            &&& told.vendor == Some("Intel"@) ==> search::contains(
                edit::lower_text(told.name),
                "intel"@,
            )
            &&& told.vendor is None ==> !search::contains(edit::lower_text(told.name), "intel"@)
                && !search::contains(edit::lower_text(told.name), "amd"@)
        }),
{
    let line = slot + seq![':'] + name;
    search::lemma_find_char(line, ':', 0);
    assert(line[slot.len() as int] == ':');
    let i = search::find_char(line, ':', 0)->Some_0;
    if i < slot.len() {
        assert(line[i] == slot[i]);
    }
    assert(i == slot.len());
    assert(line.skip(i + 1) =~= name);
    reveal_strlit("NVIDIA");
    reveal_strlit("AMD");
    reveal_strlit("Intel");
    assert("NVIDIA"@.len() == 6 && "AMD"@.len() == 3 && "Intel"@.len() == 5);
}

/// `lspci` is asked only where `nvidia-smi` tells of no processor.
pub proof fn nvidia_is_believed_first(nvidia: Option<Seq<char>>, pci: Option<Seq<char>>)
    ensures
        nvidia matches Some(output) ==> (gpu::nvidia_lines(split::lines(output)).len() > 0
            ==> gpu::gpus(nvidia, pci) == gpu::nvidia_lines(split::lines(output))),
        (nvidia matches Some(output) ==> gpu::nvidia_lines(split::lines(output)).len() == 0) ==> (
        pci matches Some(output) ==> gpu::gpus(nvidia, pci) == gpu::pci_lines(
            split::lines(output),
        )),
        nvidia is None && pci is None ==> gpu::gpus(nvidia, pci).len() == 0,
{
}

} // verus!
