//! What holds of the configuration: that filling in a field is precise, and
//! what recording the execution prefix makes of a configuration as it was first
//! written.

use crate::config::{
    config_text, field_set, field_text, initial_config_text, line_text, placeholder_text, plain,
    system_lines, ConfigStore,
};
use crate::text::{lines, occurs, occurs_at, replaced, single_line};
use crate::text_laws::{
    lemma_occurs_between, lemma_occurs_in_joined, lemma_replaced_behind_lead,
    lemma_replaced_holds_replacement, lemma_replaced_line_by_line, lemma_replaced_of_joined,
    lemma_replaced_without_occurrence,
};
use vstd::prelude::*;

verus! {

/// The presence check is idempotent: two stores that hold the same give the same
/// answer. Reading a store does not change it, so as long as nothing is written
/// the check gives one answer, however often it is made.
pub proof fn lemma_presence_is_stable(first: ConfigStore, second: ConfigStore)
    requires
        first@ == second@,
    ensures
        first.present() == second.present(),
{
}

/// A field without a line break in its key and its value lies on one line, and
/// is not empty.
pub proof fn lemma_field_is_single_line(key: Seq<char>, value: Seq<char>)
    requires
        single_line(key),
        single_line(value),
    ensures
        single_line(field_text(key, value)),
        field_text(key, value).len() == key.len() + value.len() + 4,
{
    reveal_strlit(": \"");
    reveal_strlit("\"");
}

/// Filling in a field is precise. Where the text holds the empty placeholder of
/// `key`, and neither the key nor the value holds a line break, the result holds
/// the filled-in field, it has as many lines as the text had, every line is the
/// line of the text with its placeholders filled in, and a line that holds no
/// placeholder is the same as before, character by character.
pub proof fn lemma_set_field_is_precise(content: Seq<char>, key: Seq<char>, value: Seq<char>)
    requires
        single_line(key),
        single_line(value),
        occurs(content, placeholder_text(key)),
    ensures
        field_set(content, key, value) matches Some(updated) && {
            &&& occurs(updated, field_text(key, value))
            &&& lines(updated).len() == lines(content).len()
            &&& forall|i: int|
                0 <= i < lines(content).len() ==> #[trigger] lines(updated)[i] == replaced(
                    lines(content)[i],
                    placeholder_text(key),
                    field_text(key, value),
                )
            &&& forall|i: int|
                0 <= i < lines(content).len() && !occurs(lines(content)[i], placeholder_text(key))
                    ==> #[trigger] lines(updated)[i] == lines(content)[i]
        },
{
    let placeholder = placeholder_text(key);
    let filled = field_text(key, value);
    let updated = replaced(content, placeholder, filled);
    lemma_field_is_single_line(key, Seq::empty());
    lemma_field_is_single_line(key, value);
    lemma_replaced_holds_replacement(content, placeholder, filled);
    lemma_replaced_line_by_line(content, placeholder, filled);
    assert forall|i: int|
        0 <= i < lines(content).len() && !occurs(
            lines(content)[i],
            placeholder,
        ) implies #[trigger] lines(updated)[i] == lines(content)[i] by {
        lemma_replaced_without_occurrence(lines(content)[i], placeholder, filled);
    }
}

/// The placeholder of the execution prefix holds no line break.
proof fn lemma_prefix_placeholder_shape()
    ensures
        single_line(placeholder_text("env_dir"@)),
        placeholder_text("env_dir"@).len() == 11,
        placeholder_text("env_dir"@) == "env_dir"@ + ": \""@ + "\""@,
        forall|p: int| 0 <= p < 7 ==> placeholder_text("env_dir"@)[p] == "env_dir"@[p],
        placeholder_text("env_dir"@)[9] == '"',
        placeholder_text("env_dir"@)[10] == '"',
{
    reveal_strlit("env_dir");
    reveal_strlit(": \"");
    reveal_strlit("\"");
    lemma_field_is_single_line("env_dir"@, Seq::empty());
    assert(placeholder_text("env_dir"@) =~= "env_dir"@ + ": \""@ + "\""@);
}

/// The line of a field holds the placeholder of the execution prefix only where
/// the field is empty and its key ends as that placeholder begins. So it does
/// not hold it where the field has a value, nor where `p` names a character at
/// which the indented key `"  " + key` does not end so.
pub proof fn lemma_line_without_prefix_placeholder(key: Seq<char>, value: Seq<char>, p: int)
    requires
        plain(key),
        plain(value),
        value.len() > 0 || {
            &&& key.len() >= 5
            &&& 0 <= p < 7
            &&& ("  "@ + key)[key.len() - 5 + p] != "env_dir"@[p]
        },
    ensures
        !occurs("  "@ + field_text(key, value), placeholder_text("env_dir"@)),
{
    reveal_strlit("  ");
    reveal_strlit(": \"");
    reveal_strlit("\"");
    lemma_prefix_placeholder_shape();
    let line = "  "@ + field_text(key, value);
    let placeholder = placeholder_text("env_dir"@);
    let n = key.len() as int;
    assert(line.len() == n + value.len() + 6);
    assert forall|i: int| 0 <= i < line.len() && line[i] == '"' implies i == n + 4 || i == n + 5
        + value.len() by {
        if i < 2 {
            assert(line[i] == "  "@[i]);
        } else if i < n + 2 {
            assert(line[i] == key[i - 2]);
        } else if i < n + 5 {
            assert(line[i] == ": \""@[i - n - 2]);
        } else if i < n + 5 + value.len() {
            assert(line[i] == value[i - n - 5]);
        }
    }
    assert forall|at: int| !occurs_at(line, placeholder, at) by {
        if occurs_at(line, placeholder, at) {
            let found = line.subrange(at, at + 11);
            assert(found[9] == line[at + 9]);
            assert(found[10] == line[at + 10]);
            assert(at + 9 == n + 4);
            assert(value.len() == 0);
            assert(found[p] == line[at + p]);
            assert(line[at + p] == ("  "@ + key)[n - 5 + p]);
        }
    }
}

/// The line of the execution prefix, rewritten: the placeholder gives way to the
/// filled-in field.
proof fn lemma_line_of_prefix(with: Seq<char>)
    ensures
        replaced("  "@ + placeholder_text("env_dir"@), placeholder_text("env_dir"@), with) == "  "@
            + with,
{
    reveal_strlit("  ");
    reveal_strlit("env_dir");
    lemma_prefix_placeholder_shape();
    lemma_replaced_behind_lead("  "@, placeholder_text("env_dir"@), with);
}

/// A line that does not hold the pattern passes through the rewriting, and the
/// rewriting goes on behind its line break.
proof fn lemma_replaced_passes_line(
    line: Seq<char>,
    rest: Seq<char>,
    pat: Seq<char>,
    with: Seq<char>,
)
    requires
        single_line(pat),
        !occurs(line, pat),
    ensures
        replaced(line + seq!['\n'] + rest, pat, with) == line + seq!['\n'] + replaced(
            rest,
            pat,
            with,
        ),
{
    lemma_replaced_of_joined(line, rest, pat, with);
    lemma_replaced_without_occurrence(line, pat, with);
}

/// Recording the execution prefix in a configuration as it was first written
/// gives the configuration with that prefix and nothing else changed. The names
/// under which the host is recorded have to be plain; those of a supported host
/// are.
pub proof fn lemma_prefix_is_recorded(value: Seq<char>, system: Option<(Seq<char>, Seq<char>)>)
    requires
        system matches Some((arch, os)) ==> plain(arch) && plain(os),
    ensures
        field_set(initial_config_text(system), "env_dir"@, value) == Some(
            config_text(value, Seq::empty(), system),
        ),
{
    reveal_strlit("luncher:\n");
    reveal_strlit("luncher:");
    reveal_strlit("\n");
    reveal_strlit("  ");
    reveal_strlit("res_dir");
    reveal_strlit("system_arch");
    reveal_strlit("system_os");
    reveal_strlit("env_dir");
    lemma_prefix_placeholder_shape();
    let placeholder = placeholder_text("env_dir"@);
    let filled = field_text("env_dir"@, value);
    let none = Seq::<char>::empty();
    let nl = seq!['\n'];
    let rewrite = |text: Seq<char>| replaced(text, placeholder, filled);
    assert("\n"@ =~= nl);
    assert("luncher:\n"@ =~= "luncher:"@ + nl);

    let top = "luncher:"@;
    let prefix_line = "  "@ + placeholder;
    let res_line = "  "@ + field_text("res_dir"@, none);
    let host_part = system_lines(system);
    let after_res = host_part;
    let after_prefix = res_line + nl + after_res;
    let after_top = prefix_line + nl + after_prefix;
    let whole = initial_config_text(system);
    assert(whole =~= top + nl + after_top);

    // The lines that record the host pass through as they are.
    assert(rewrite(host_part) == host_part) by {
        match system {
            Some((arch, os)) => {
                let arch_line = "  "@ + field_text("system_arch"@, arch);
                let os_line = "  "@ + field_text("system_os"@, os);
                assert(host_part =~= arch_line + nl + (os_line + nl + none));
                assert(plain("system_arch"@));
                assert(plain("system_os"@));
                assert(("  "@ + "system_arch"@)[7] == 'm');
                assert(("  "@ + "system_os"@)[4] == 's');
                lemma_line_without_prefix_placeholder("system_arch"@, arch, 1);
                lemma_line_without_prefix_placeholder("system_os"@, os, 0);
                lemma_replaced_passes_line(arch_line, os_line + nl + none, placeholder, filled);
                lemma_replaced_passes_line(os_line, none, placeholder, filled);
            },
            None => {},
        }
    }
    // So does the line of the reserved directory.
    assert(plain("res_dir"@));
    assert(plain(none));
    assert(("  "@ + "res_dir"@)[2] == 'r');
    lemma_line_without_prefix_placeholder("res_dir"@, none, 0);
    lemma_replaced_passes_line(res_line, after_res, placeholder, filled);
    // The line of the prefix is filled in.
    lemma_replaced_of_joined(prefix_line, after_prefix, placeholder, filled);
    lemma_line_of_prefix(filled);
    // The first line is shorter than the placeholder.
    assert(rewrite(top) == top);
    lemma_replaced_of_joined(top, after_top, placeholder, filled);

    assert(rewrite(whole) =~= config_text(value, none, system));
    assert(occurs_at(whole, placeholder, 11)) by {
        assert(whole.subrange(11, 22) =~= placeholder);
    }
}

/// A configuration as it was first written holds the empty placeholder of the
/// execution prefix.
pub proof fn lemma_initial_config_awaits_prefix(system: Option<(Seq<char>, Seq<char>)>)
    ensures
        occurs(initial_config_text(system), placeholder_text("env_dir"@)),
{
    let placeholder = placeholder_text("env_dir"@);
    let lead = "luncher:\n"@ + "  "@;
    let rest = "\n"@ + line_text("res_dir"@, Seq::empty()) + system_lines(system);
    lemma_occurs_between(lead, placeholder, rest);
    assert(initial_config_text(system) =~= lead + placeholder + rest);
}

/// A configuration in which a prefix is recorded holds the empty placeholder of
/// the execution prefix no more. The prefix and the names under which the host
/// is recorded have to be plain.
pub proof fn lemma_recorded_config_awaits_nothing(
    prefix: Seq<char>,
    system: Option<(Seq<char>, Seq<char>)>,
)
    requires
        prefix.len() > 0,
        plain(prefix),
        system matches Some((arch, os)) ==> plain(arch) && plain(os),
    ensures
        !occurs(config_text(prefix, Seq::empty(), system), placeholder_text("env_dir"@)),
{
    reveal_strlit("luncher:\n");
    reveal_strlit("luncher:");
    reveal_strlit("\n");
    reveal_strlit("  ");
    reveal_strlit("res_dir");
    reveal_strlit("system_arch");
    reveal_strlit("system_os");
    reveal_strlit("env_dir");
    lemma_prefix_placeholder_shape();
    let placeholder = placeholder_text("env_dir"@);
    let none = Seq::<char>::empty();
    let nl = seq!['\n'];
    assert("\n"@ =~= nl);
    assert("luncher:\n"@ =~= "luncher:"@ + nl);

    let top = "luncher:"@;
    let prefix_line = "  "@ + field_text("env_dir"@, prefix);
    let res_line = "  "@ + field_text("res_dir"@, none);
    let host_part = system_lines(system);
    let after_prefix = res_line + nl + host_part;
    let after_top = prefix_line + nl + after_prefix;
    let whole = config_text(prefix, none, system);
    assert(whole =~= top + nl + after_top);

    assert(!occurs(host_part, placeholder)) by {
        match system {
            Some((arch, os)) => {
                let arch_line = "  "@ + field_text("system_arch"@, arch);
                let os_line = "  "@ + field_text("system_os"@, os);
                assert(host_part =~= arch_line + nl + (os_line + nl + none));
                assert(plain("system_arch"@));
                assert(plain("system_os"@));
                assert(("  "@ + "system_arch"@)[7] == 'm');
                assert(("  "@ + "system_os"@)[4] == 's');
                lemma_line_without_prefix_placeholder("system_arch"@, arch, 1);
                lemma_line_without_prefix_placeholder("system_os"@, os, 0);
                lemma_occurs_in_joined(arch_line, os_line + nl + none, placeholder);
                lemma_occurs_in_joined(os_line, none, placeholder);
                assert(!occurs(none, placeholder)) by {
                    assert forall|at: int| !occurs_at(none, placeholder, at) by {}
                }
            },
            None => {
                assert forall|at: int| !occurs_at(host_part, placeholder, at) by {}
            },
        }
    }
    assert(plain("res_dir"@));
    assert(plain("env_dir"@));
    assert(plain(none));
    assert(("  "@ + "res_dir"@)[2] == 'r');
    lemma_line_without_prefix_placeholder("res_dir"@, none, 0);
    lemma_line_without_prefix_placeholder("env_dir"@, prefix, 0);
    lemma_occurs_in_joined(res_line, host_part, placeholder);
    lemma_occurs_in_joined(prefix_line, after_prefix, placeholder);
    lemma_occurs_in_joined(top, after_top, placeholder);
    assert(!occurs(top, placeholder)) by {
        assert forall|at: int| !occurs_at(top, placeholder, at) by {}
    }
}

/// The execution prefix is recorded once: in a configuration that records a
/// prefix, the field cannot be filled in again.
pub proof fn lemma_prefix_is_recorded_once(
    prefix: Seq<char>,
    system: Option<(Seq<char>, Seq<char>)>,
    again: Seq<char>,
)
    requires
        prefix.len() > 0,
        plain(prefix),
        system matches Some((arch, os)) ==> plain(arch) && plain(os),
    ensures
        field_set(config_text(prefix, Seq::empty(), system), "env_dir"@, again) is None,
{
    lemma_recorded_config_awaits_nothing(prefix, system);
}

/// A configuration holds the keys of both directories, whatever their values
/// are.
pub proof fn lemma_config_holds_both_keys(
    env_dir: Seq<char>,
    res_dir: Seq<char>,
    system: Option<(Seq<char>, Seq<char>)>,
)
    ensures
        occurs(config_text(env_dir, res_dir, system), "env_dir"@),
        occurs(config_text(env_dir, res_dir, system), "res_dir"@),
{
    let whole = config_text(env_dir, res_dir, system);
    let lead = "luncher:\n"@ + "  "@;
    let rest = ": \""@ + env_dir + "\""@ + "\n"@ + line_text("res_dir"@, res_dir) + system_lines(
        system,
    );
    lemma_occurs_between(lead, "env_dir"@, rest);
    assert(whole =~= lead + "env_dir"@ + rest);
    let lead = "luncher:\n"@ + line_text("env_dir"@, env_dir) + "  "@;
    let rest = ": \""@ + res_dir + "\""@ + "\n"@ + system_lines(system);
    lemma_occurs_between(lead, "res_dir"@, rest);
    assert(whole =~= lead + "res_dir"@ + rest);
}

} // verus!
