//! Properties of the connection logic that span commands.
use vstd::prelude::*;
use crate::client::{
    absolute_or_relative_spec, command_step, probe_target, request_step, AwaitingView, resolve_any_path_spec, resolve_path_spec,
    resume_step, server_path, ClientView, EffectView, OutcomeView,
};
use crate::commands::{
    kw_cwd, kw_dele, kw_list, kw_mkd, kw_pasv, kw_pass, kw_pwd, kw_retr, kw_rmd, kw_rnfr, kw_rnto,
    kw_stor, kw_type, kw_user, line_words, parse_spec, CommandView,
};
use crate::commands::{archive_name_spec, archive_suffix, is_archive_spec, DataChannelView};
use crate::ftp_responses::{pasv_mode_reply, OPENING_DATA, TRANSFER_COMPLETE};
use crate::paths::{
    apply_segment, file_name, has_root, is_proper_name, join_names, last_component, lexical_names,
    push_path, scan_segments, trim_trailing_components,
};
use crate::text::{
    is_white_space, lemma_words_prefix_space, lemma_words_suffix_space, lemma_words_trim,
    decimal, digit_char, scan_words, trim, trim_end, trim_start,
};
use crate::listing::{clean_name, listing_line, trim_name_end, trim_name_start, ListingEntryView};
use crate::user_session::SessionView;

verus! {

/// A name pushed onto a directory with a root gives a path with a root.
proof fn lemma_push_keeps_root(base: Seq<char>, p: Seq<char>)
    requires
        has_root(base),
    ensures
        has_root(push_path(base, p)),
{
    if !has_root(p) {
        if base.last() != '/' {
            assert((base + seq!['/'] + p)[0] == base[0]);
        } else {
            assert((base + p)[0] == base[0]);
        }
    }
}

/// The current directory keeps its root through every command.
pub proof fn law_command_keeps_root(c: ClientView, cmd: CommandView, exists: bool, is_dir: bool)
    requires
        has_root(c.session.current_dir),
    ensures
        has_root(command_step(c, cmd, exists, is_dir).0.session.current_dir),
{
    if let CommandView::Cwd(d) = cmd {
        if !has_root(d) {
            lemma_push_keeps_root(c.session.current_dir, d);
        }
    }
}

/// The current directory keeps its root when a command is taken.
pub proof fn law_request_keeps_root(c: ClientView, cmd: CommandView)
    requires
        has_root(c.session.current_dir),
    ensures
        has_root(request_step(c, cmd).0.session.current_dir),
{
    law_command_keeps_root(c, cmd, false, false);
}

/// A command that needs the disk looks at the server path of its name,
/// and once told what is there acts as if it had known it all along.
pub proof fn law_probe_then_act(c: ClientView, cmd: CommandView, exists: bool, is_dir: bool)
    requires
        c.awaiting is Command,
        probe_target(c.session, cmd) is Some,
    ensures
        request_step(c, cmd).1 == EffectView::Probe(probe_target(c.session, cmd)->0),
        resume_step(request_step(c, cmd).0, OutcomeView::Probed(exists, is_dir)) == command_step(
            c,
            cmd,
            exists,
            is_dir,
        ),
{
    let waiting = request_step(c, cmd).0;
    assert(ClientView { awaiting: AwaitingView::Command, ..waiting } == c);
}

/// The current directory keeps its root through the result of outside work.
pub proof fn law_resume_keeps_root(c: ClientView, o: OutcomeView)
    requires
        has_root(c.session.current_dir),
    ensures
        has_root(resume_step(c, o).0.session.current_dir),
{
    if let (AwaitingView::Probe(cmd), OutcomeView::Probed(e, d)) = (c.awaiting, o) {
        law_command_keeps_root(ClientView { awaiting: AwaitingView::Command, ..c }, cmd, e, d);
    }
}

/// Pushing a path without a root keeps the base in front.
proof fn lemma_push_relative_extends(base: Seq<char>, p: Seq<char>)
    requires
        !has_root(p),
    ensures
        base.is_prefix_of(push_path(base, p)),
{
    let r = push_path(base, p);
    if base.len() > 0 && base.last() != '/' {
        assert(r =~= base + (seq!['/'] + p));
    }
    assert forall|i: int| 0 <= i < base.len() implies base[i] == r[i] by {}
}

/// Every server path that a user path resolves to lies, as text, under the
/// session's starting directory: the starting directory is its prefix.
pub proof fn law_resolved_under_starting_dir(s: SessionView, virtual_path: Seq<char>)
    ensures
        s.starting_dir.is_prefix_of(resolve_any_path_spec(s, virtual_path)),
{
    lemma_lexical_names_proper(virtual_path);
    lemma_join_proper(lexical_names(virtual_path));
    lemma_push_relative_extends(s.starting_dir, join_names(lexical_names(virtual_path)));
}

/// The server path of the current directory lies under the starting
/// directory too.
pub proof fn law_current_dir_under_starting_dir(s: SessionView)
    ensures
        s.starting_dir.is_prefix_of(resolve_path_spec(s)),
{
    law_resolved_under_starting_dir(s, s.current_dir);
}

/// No data transfer starts unless a data listener is open (PASV first).
pub proof fn law_transfer_needs_passive(
    c: ClientView,
    cmd: CommandView,
    exists: bool,
    is_dir: bool,
    o: OutcomeView,
)
    requires
        !c.passive,
    ensures
        !(command_step(c, cmd, exists, is_dir).1 is Transfer),
        !(request_step(c, cmd).1 is Transfer),
        !(resume_step(c, o).1 is Transfer),
{
}

/// A completed transfer answers `226` and uses the data listener up.
pub proof fn law_transfer_uses_listener(c: ClientView)
    requires
        c.awaiting is Transfer,
    ensures
        !resume_step(c, OutcomeView::Done).0.passive,
        resume_step(c, OutcomeView::Done).1 == EffectView::Reply(TRANSFER_COMPLETE@),
        resume_step(c, OutcomeView::Done).0.awaiting is Command,
{
}

/// The PASV reply names the data port as two numbers `p1`, `p2` with
/// `p1 * 256 + p2` equal to the port, and the listener is then open.
pub proof fn law_pasv_reply_names_port(c: ClientView, port: u16)
    requires
        c.awaiting is Passive,
    ensures
        resume_step(c, OutcomeView::PassiveOpened(port)).0.passive,
        ({
            let p1 = (port / 256) as nat;
            let p2 = (port % 256) as nat;
            &&& resume_step(c, OutcomeView::PassiveOpened(port)).1 == EffectView::Reply(
                pasv_mode_reply(p1, p2),
            )
            &&& p1 * 256 + p2 == port
            &&& p2 < 256
        }),
{
}

/// After a CWD that finds a directory, PWD shows the new directory.
pub proof fn law_cwd_then_pwd(c: ClientView, dir: Seq<char>, e2: bool, d2: bool)
    requires
        c.awaiting is Command,
        has_root(c.session.current_dir),
    ensures
        ({
            let after = command_step(c, CommandView::Cwd(dir), true, true).0;
            let target = absolute_or_relative_spec(c.session, dir);
            &&& after.session.current_dir == target
            &&& command_step(after, CommandView::Pwd, e2, d2).1 == EffectView::Reply(
                "257 \""@ + target + "\" is the current directory.\r\n"@,
            )
        }),
{
    law_command_keeps_root(c, CommandView::Cwd(dir), true, true);
}

/// RNTO after an RNFR that found its file renames that file to the new
/// name's server path (the found file's path is never empty except for an
/// empty starting directory).
pub proof fn law_rename_after_rnfr(
    c: ClientView,
    old_name: Seq<char>,
    new_name: Seq<char>,
    e2: bool,
    d2: bool,
)
    requires
        c.awaiting is Command,
        server_path(c.session, old_name).len() > 0,
    ensures
        ({
            let after = command_step(c, CommandView::Rfnr(old_name), true, false).0;
            command_step(after, CommandView::Rnto(new_name), e2, d2).1 == EffectView::Rename(
                server_path(c.session, old_name),
                server_path(c.session, new_name),
            )
        }),
{
}

/// A `..` component begins at index `i` of `s`.
pub open spec fn is_parent_at(s: Seq<char>, i: int) -> bool {
    &&& 0 <= i
    &&& i + 2 <= s.len()
    &&& s[i] == '.'
    &&& s[i + 1] == '.'
    &&& (i == 0 || s[i - 1] == '/')
    &&& (i + 2 == s.len() || s[i + 2] == '/')
}

/// `s` has a `..` component, which names the parent directory.
pub open spec fn has_parent_component(s: Seq<char>) -> bool {
    exists|i: int| is_parent_at(s, i)
}

/// Joining two paths without `..` components, the second without a root,
/// gives a path without `..` components.
proof fn lemma_push_no_parent(base: Seq<char>, p: Seq<char>)
    requires
        !has_parent_component(base),
        !has_parent_component(p),
        !has_root(p),
    ensures
        !has_parent_component(push_path(base, p)),
{
    let r = push_path(base, p);
    let sep = base.len() > 0 && base.last() != '/';
    let off: int = if sep {
        base.len() + 1int
    } else {
        base.len() as int
    };
    assert forall|i: int| !is_parent_at(r, i) by {
        if is_parent_at(r, i) {
            if sep {
                assert(r =~= base + seq!['/'] + p);
            } else {
                assert(r =~= base + p);
            }
            if i + 2 <= base.len() {
                if i + 2 < base.len() {
                    assert(r[i + 2] == base[i + 2]);
                } else if sep {
                    assert(r[i + 2] == '/');
                } else if p.len() > 0 {
                    assert(r[i + 2] == p[0]);
                }
                assert(is_parent_at(base, i));
            } else if i >= off {
                assert(r[i] == p[i - off] && r[i + 1] == p[i + 1 - off]);
                if i > off {
                    assert(r[i - 1] == p[i - 1 - off]);
                }
                if i + 2 < r.len() {
                    assert(r[i + 2] == p[i + 2 - off]);
                }
                assert(is_parent_at(p, i - off));
            } else {
                // the component would run across the end of `base`
                if sep {
                    assert(i == base.len() - 1 || i == base.len());
                } else {
                    assert(i == base.len() - 1);
                    assert(r[i] == base.last());
                }
            }
        }
    }
}

/// A sequence without `/` has none at any index.
proof fn lemma_no_slash_at(n: Seq<char>, i: int)
    requires
        !n.contains('/'),
        0 <= i < n.len(),
    ensures
        n[i] != '/',
{
    if n[i] == '/' {
        assert(n.contains('/'));
    }
}

/// A proper name has no `..` component and no root.
proof fn lemma_proper_name_plain(n: Seq<char>)
    requires
        is_proper_name(n),
    ensures
        !has_parent_component(n),
        !has_root(n),
        n.last() != '/',
{
    lemma_no_slash_at(n, 0);
    lemma_no_slash_at(n, n.len() - 1);
    assert forall|i: int| !is_parent_at(n, i) by {
        if is_parent_at(n, i) {
            if i > 0 {
                lemma_no_slash_at(n, i - 1);
            }
            if i + 2 < n.len() {
                lemma_no_slash_at(n, i + 2);
            }
            assert(n =~= seq!['.', '.']);
        }
    }
}

/// One more component keeps every name proper.
proof fn lemma_apply_segment_proper(names: Seq<Seq<char>>, seg: Seq<char>)
    requires
        forall|i: int| 0 <= i < names.len() ==> is_proper_name(#[trigger] names[i]),
        !seg.contains('/'),
    ensures
        forall|i: int|
            0 <= i < apply_segment(names, seg).len() ==> is_proper_name(
                #[trigger] apply_segment(names, seg)[i],
            ),
{
    let r = apply_segment(names, seg);
    assert forall|i: int| 0 <= i < r.len() implies is_proper_name(#[trigger] r[i]) by {
        if i < names.len() {
            assert(r[i] == names[i]);
        }
    }
}

/// Reading a path gives proper names and a component in progress without
/// `/`.
proof fn lemma_scan_segments_proper(p: Seq<char>)
    ensures
        forall|i: int|
            0 <= i < scan_segments(p).0.len() ==> is_proper_name(#[trigger] scan_segments(p).0[i]),
        !scan_segments(p).1.contains('/'),
    decreases p.len(),
{
    if p.len() > 0 {
        lemma_scan_segments_proper(p.drop_last());
        let (names, cur) = scan_segments(p.drop_last());
        if p.last() == '/' {
            lemma_apply_segment_proper(names, cur);
            assert(!Seq::<char>::empty().contains('/'));
        } else {
            assert forall|j: int| 0 <= j < cur.push(p.last()).len() implies cur.push(p.last())[j]
                != '/' by {
                if j < cur.len() {
                    assert(cur.push(p.last())[j] == cur[j]);
                    lemma_no_slash_at(cur, j);
                }
            }
        }
    }
}

/// Every name a path resolves to is proper.
proof fn lemma_lexical_names_proper(p: Seq<char>)
    ensures
        forall|i: int|
            0 <= i < lexical_names(p).len() ==> is_proper_name(#[trigger] lexical_names(p)[i]),
{
    lemma_scan_segments_proper(p);
    let (names, cur) = scan_segments(p);
    lemma_apply_segment_proper(names, cur);
}

/// Proper names joined by `/` have no root and no `..` component.
proof fn lemma_join_proper(names: Seq<Seq<char>>)
    requires
        forall|i: int| 0 <= i < names.len() ==> is_proper_name(#[trigger] names[i]),
    ensures
        !has_root(join_names(names)),
        !has_parent_component(join_names(names)),
        names.len() > 0 ==> join_names(names).len() > 0 && join_names(names).last() != '/',
    decreases names.len(),
{
    if names.len() == 1 {
        lemma_proper_name_plain(names[0]);
    } else if names.len() > 1 {
        let front = names.drop_last();
        assert forall|i: int| 0 <= i < front.len() implies is_proper_name(#[trigger] front[i]) by {
            assert(front[i] == names[i]);
        }
        lemma_join_proper(front);
        let j = join_names(front);
        let n = names.last();
        assert(is_proper_name(names[names.len() - 1]));
        lemma_proper_name_plain(n);
        assert(join_names(names) == push_path(j, n));
        lemma_push_no_parent(j, n);
        assert((j + seq!['/'] + n)[0] == j[0]);
    }
}

/// Every user path, whatever `.` and `..` components it has, resolves to
/// the starting directory joined with proper names only: no server path
/// that a client names lies above the starting directory.
pub proof fn law_resolved_stays_inside(s: SessionView, virtual_path: Seq<char>)
    ensures
        ({
            let names = lexical_names(virtual_path);
            &&& forall|i: int| 0 <= i < names.len() ==> is_proper_name(#[trigger] names[i])
            &&& !has_root(join_names(names))
            &&& !has_parent_component(join_names(names))
            &&& resolve_any_path_spec(s, virtual_path) == push_path(
                s.starting_dir,
                join_names(names),
            )
        }),
{
    lemma_lexical_names_proper(virtual_path);
    lemma_join_proper(lexical_names(virtual_path));
}

/// Reading more characters without `/` only extends the component in
/// progress.
proof fn lemma_scan_append_plain(x: Seq<char>, w: Seq<char>)
    requires
        !w.contains('/'),
    ensures
        scan_segments(x + w) == (scan_segments(x).0, scan_segments(x).1 + w),
    decreases w.len(),
{
    if w.len() == 0 {
        assert(x + w =~= x);
        assert(scan_segments(x).1 + w =~= scan_segments(x).1);
    } else {
        let v = w.drop_last();
        assert(!v.contains('/')) by {
            if v.contains('/') {
                let k = choose|k: int| 0 <= k < v.len() && v[k] == '/';
                assert(w[k] == '/');
            }
        }
        lemma_scan_append_plain(x, v);
        assert((x + w).drop_last() =~= x + v);
        assert((x + w).last() == w.last());
        assert(w.last() != '/') by {
            if w.last() == '/' {
                assert(w[w.len() - 1] == '/');
            }
        }
        assert((scan_segments(x).1 + v).push(w.last()) =~= scan_segments(x).1 + w);
    }
}

/// Reading a `/` finishes the component in progress.
proof fn lemma_scan_slash(x: Seq<char>)
    ensures
        scan_segments(x + seq!['/']) == (lexical_names(x), Seq::<char>::empty()),
{
    assert((x + seq!['/']).drop_last() =~= x);
    assert((x + seq!['/']).last() == '/');
}

/// A trailing separator does not change what a path resolves to.
pub proof fn law_trailing_separator(s: SessionView, p: Seq<char>)
    ensures
        lexical_names(p + seq!['/']) == lexical_names(p),
        resolve_any_path_spec(s, p + seq!['/']) == resolve_any_path_spec(s, p),
{
    lemma_scan_slash(p);
}

/// A name followed by `..` cancels out: `p/n/..` resolves to what `p`
/// resolves to, for any proper name `n`.
pub proof fn law_parent_cancels_name(s: SessionView, p: Seq<char>, n: Seq<char>)
    requires
        is_proper_name(n),
    ensures
        lexical_names(p + seq!['/'] + n + seq!['/', '.', '.']) == lexical_names(p),
        resolve_any_path_spec(s, p + seq!['/'] + n + seq!['/', '.', '.'])
            == resolve_any_path_spec(s, p),
{
    let q1 = p + seq!['/'];
    let q2 = q1 + n;
    let q3 = q2 + seq!['/'];
    let q4 = q3 + seq!['.', '.'];
    assert(p + seq!['/'] + n + seq!['/', '.', '.'] =~= q4);
    lemma_scan_slash(p);
    lemma_scan_append_plain(q1, n);
    assert(Seq::<char>::empty() + n =~= n);
    lemma_scan_slash(q2);
    assert(lexical_names(q2) == lexical_names(p).push(n));
    assert(!seq!['.', '.'].contains('/')) by {
        if seq!['.', '.'].contains('/') {
            let k = choose|k: int| 0 <= k < 2 && seq!['.', '.'][k] == '/';
        }
    }
    lemma_scan_append_plain(q3, seq!['.', '.']);
    assert(Seq::<char>::empty() + seq!['.', '.'] =~= seq!['.', '.']);
    assert(lexical_names(p).push(n).drop_last() =~= lexical_names(p));
}

/// Following a path by `/` and a proper name adds that name; following it
/// by `/.` changes nothing.
pub proof fn law_append_name(p: Seq<char>, n: Seq<char>)
    requires
        is_proper_name(n),
    ensures
        lexical_names(p + seq!['/'] + n) == lexical_names(p).push(n),
        lexical_names(p + seq!['/', '.']) == lexical_names(p),
{
    lemma_scan_slash(p);
    lemma_scan_append_plain(p + seq!['/'], n);
    assert(Seq::<char>::empty() + n =~= n);
    assert(!seq!['.'].contains('/')) by {
        if seq!['.'].contains('/') {
            let k = choose|k: int| 0 <= k < 1 && seq!['.'][k] == '/';
        }
    }
    lemma_scan_append_plain(p + seq!['/'], seq!['.']);
    assert(Seq::<char>::empty() + seq!['.'] =~= seq!['.']);
    assert(p + seq!['/', '.'] =~= p + seq!['/'] + seq!['.']);
}

/// A name with a root means the same whatever the current directory: two
/// sessions with the same starting directory give it the same server
/// path.
pub proof fn law_rooted_names_ignore_current_dir(s1: SessionView, s2: SessionView, name: Seq<char>)
    requires
        s1.starting_dir == s2.starting_dir,
        has_root(name),
    ensures
        server_path(s1, name) == server_path(s2, name),
{
}

/// A proper name given in a command stands, from the root, for the names
/// of the current directory followed by that name.
pub proof fn law_plain_name_in_current_dir(s: SessionView, n: Seq<char>)
    requires
        is_proper_name(n),
    ensures
        lexical_names(absolute_or_relative_spec(s, n)) == lexical_names(s.current_dir).push(n),
        server_path(s, n) == push_path(
            s.starting_dir,
            join_names(lexical_names(s.current_dir).push(n)),
        ),
{
    lemma_proper_name_plain(n);
    let cur = s.current_dir;
    if cur.len() == 0 {
        assert(absolute_or_relative_spec(s, n) == n);
        lemma_scan_append_plain(Seq::<char>::empty(), n);
        assert(Seq::<char>::empty() + n =~= n);
        assert(Seq::<char>::empty() + Seq::<char>::empty() + n =~= n);
        assert(lexical_names(cur) =~= Seq::<Seq<char>>::empty());
        assert(Seq::<Seq<char>>::empty().push(n) =~= seq![n]);
    } else if cur.last() != '/' {
        assert(absolute_or_relative_spec(s, n) == cur + seq!['/'] + n);
        lemma_scan_slash(cur);
        lemma_scan_append_plain(cur + seq!['/'], n);
        assert(Seq::<char>::empty() + n =~= n);
    } else {
        let x = cur.drop_last();
        assert(cur =~= x + seq!['/']);
        assert(absolute_or_relative_spec(s, n) == cur + n);
        lemma_scan_slash(x);
        lemma_scan_append_plain(cur, n);
        assert(Seq::<char>::empty() + n =~= n);
    }
}

/// The file STOR writes is the file RETR of the same name reads: the
/// server path that RETR looks at.
pub proof fn law_stor_writes_where_retr_reads(c: ClientView, f: Seq<char>, e: bool, d: bool)
    requires
        c.passive,
        c.awaiting is Command,
    ensures
        command_step(c, CommandView::Stor(f), e, d).1 == EffectView::Transfer(
            OPENING_DATA@,
            DataChannelView::ReceiveFile(probe_target(c.session, CommandView::Retr(f))->0),
        ),
        command_step(c, CommandView::Retr(f), true, d).1 == EffectView::Transfer(
            OPENING_DATA@,
            DataChannelView::SendFile(probe_target(c.session, CommandView::Retr(f))->0),
        ),
{
}

/// Each command that looks at the disk then acts on the very path it
/// looked at: DELE removes it, RMD removes it, RNFR remembers it, RETR
/// sends it, and after CWD the current directory resolves to it. RNTO
/// renames onto the path RNFR of the new name would look at, and MKD
/// creates the directory that RMD of the same name would remove.
pub proof fn law_acts_on_probed_path(c: ClientView, name: Seq<char>, e: bool, d: bool)
    requires
        c.awaiting is Command,
    ensures
        command_step(c, CommandView::Dele(name), true, d).1 == EffectView::RemoveFile(
            probe_target(c.session, CommandView::Dele(name))->0,
        ),
        command_step(c, CommandView::Rmd(name), true, d).1 == EffectView::RemoveDir(
            probe_target(c.session, CommandView::Rmd(name))->0,
        ),
        command_step(c, CommandView::Rfnr(name), true, d).0.session.pending_file == probe_target(
            c.session,
            CommandView::Rfnr(name),
        )->0,
        c.passive ==> command_step(c, CommandView::Retr(name), true, d).1 == EffectView::Transfer(
            OPENING_DATA@,
            DataChannelView::SendFile(probe_target(c.session, CommandView::Retr(name))->0),
        ),
        resolve_path_spec(command_step(c, CommandView::Cwd(name), true, true).0.session)
            == probe_target(c.session, CommandView::Cwd(name))->0,
        command_step(c, CommandView::Rnto(name), true, d).1 is Rename ==> command_step(
            c,
            CommandView::Rnto(name),
            true,
            d,
        ).1 == EffectView::Rename(
            c.session.pending_file,
            probe_target(c.session, CommandView::Rfnr(name))->0,
        ),
        command_step(c, CommandView::Mkd(name), e, d).1 == EffectView::CreateDir(
            probe_target(c.session, CommandView::Rmd(name))->0,
        ),
{
}

/// A proper name in a STOR, RETR or DELE command names the entry of that
/// name in the current directory.
pub proof fn law_commands_use_current_dir(c: ClientView, n: Seq<char>, d: bool)
    requires
        c.awaiting is Command,
        is_proper_name(n),
    ensures
        ({
            let here = push_path(
                c.session.starting_dir,
                join_names(lexical_names(c.session.current_dir).push(n)),
            );
            &&& c.passive ==> command_step(c, CommandView::Stor(n), false, d).1
                == EffectView::Transfer(OPENING_DATA@, DataChannelView::ReceiveFile(here))
            &&& command_step(c, CommandView::Dele(n), true, d).1 == EffectView::RemoveFile(here)
            &&& probe_target(c.session, CommandView::Retr(n)) == Some(here)
        }),
{
    law_plain_name_in_current_dir(c.session, n);
}

/// White space around a command line does not change the command it
/// stands for.
pub proof fn law_parse_ignores_surrounding_space(before: Seq<char>, line: Seq<char>, after: Seq<char>)
    requires
        forall|i: int| 0 <= i < before.len() ==> is_white_space(#[trigger] before[i]),
        forall|i: int| 0 <= i < after.len() ==> is_white_space(#[trigger] after[i]),
    ensures
        parse_spec(before + line + after) == parse_spec(line),
{
    let whole = before + line + after;
    lemma_words_trim(whole);
    lemma_words_trim(line);
    assert(whole =~= before + (line + after));
    lemma_words_prefix_space(before, line + after);
    lemma_words_suffix_space(line, after);
    assert(line_words(whole) == line_words(line));
}

/// A word: not empty, and without white space.
pub open spec fn is_word(w: Seq<char>) -> bool {
    w.len() > 0 && forall|i: int| 0 <= i < w.len() ==> !is_white_space(#[trigger] w[i])
}

/// Reading more characters that are not white space only extends the word
/// in progress.
proof fn lemma_scan_words_append(x: Seq<char>, w: Seq<char>)
    requires
        forall|i: int| 0 <= i < w.len() ==> !is_white_space(#[trigger] w[i]),
    ensures
        scan_words(x + w) == (scan_words(x).0, scan_words(x).1 + w),
    decreases w.len(),
{
    if w.len() == 0 {
        assert(x + w =~= x);
        assert(scan_words(x).1 + w =~= scan_words(x).1);
    } else {
        let v = w.drop_last();
        assert forall|i: int| 0 <= i < v.len() implies !is_white_space(#[trigger] v[i]) by {
            assert(v[i] == w[i]);
        }
        lemma_scan_words_append(x, v);
        assert((x + w).drop_last() =~= x + v);
        assert((x + w).last() == w[w.len() - 1]);
        assert((scan_words(x).1 + v).push(w.last()) =~= scan_words(x).1 + w);
    }
}

/// Two words separated by a space are read as those two words.
proof fn lemma_two_words(a: Seq<char>, b: Seq<char>)
    requires
        is_word(a),
        is_word(b),
    ensures
        line_words(a + seq![' '] + b) == seq![a, b],
{
    let line = a + seq![' '] + b;
    assert(line[0] == a[0]);
    assert(line.last() == b[b.len() - 1]);
    assert(trim_start(line) == line);
    assert(trim_end(line) == line);
    assert(trim(line) == line);
    lemma_scan_words_append(Seq::<char>::empty(), a);
    assert(Seq::<char>::empty() + a =~= a);
    assert(Seq::<char>::empty() + Seq::<char>::empty() + a =~= a);
    let with_space = a + seq![' '];
    assert(with_space.drop_last() =~= a);
    assert(with_space.last() == ' ');
    assert(scan_words(with_space) == (seq![a], Seq::<char>::empty()));
    lemma_scan_words_append(with_space, b);
    assert(Seq::<char>::empty() + b =~= b);
    assert(seq![a].push(b) =~= seq![a, b]);
}

/// A command that takes no name ignores a word that follows it: `LIST -la`
/// is LIST, and likewise for PWD, PASV and TYPE.
pub proof fn law_no_argument_commands_ignore_a_word(w: Seq<char>)
    requires
        is_word(w),
    ensures
        parse_spec(kw_list() + seq![' '] + w) == Some(CommandView::List),
        parse_spec(kw_pwd() + seq![' '] + w) == Some(CommandView::Pwd),
        parse_spec(kw_pasv() + seq![' '] + w) == Some(CommandView::Pasv),
        parse_spec(kw_type() + seq![' '] + w) == Some(CommandView::Type),
{
    assert(is_word(kw_list()));
    assert(is_word(kw_pwd()));
    assert(is_word(kw_pasv()));
    assert(is_word(kw_type()));
    lemma_two_words(kw_list(), w);
    lemma_two_words(kw_pwd(), w);
    lemma_two_words(kw_pasv(), w);
    lemma_two_words(kw_type(), w);
    assert(kw_list()[0] != kw_type()[0]);
    assert(kw_pwd().len() != kw_type().len());
    assert(kw_pwd().len() != kw_type().len());
    assert(kw_pasv()[1] != kw_type()[1]);
    assert(kw_pasv()[0] != kw_list()[0]);
    assert(kw_pasv()[2] != kw_pwd()[2]);
}

/// A command that takes a name takes the word that follows it.
pub proof fn law_argument_is_the_next_word(w: Seq<char>)
    requires
        is_word(w),
    ensures
        parse_spec(kw_user() + seq![' '] + w) == Some(CommandView::Usr(w)),
        parse_spec(kw_pass() + seq![' '] + w) == Some(CommandView::Pass(w)),
        parse_spec(kw_cwd() + seq![' '] + w) == Some(CommandView::Cwd(w)),
        parse_spec(kw_retr() + seq![' '] + w) == Some(CommandView::Retr(w)),
        parse_spec(kw_stor() + seq![' '] + w) == Some(CommandView::Stor(w)),
        parse_spec(kw_rnfr() + seq![' '] + w) == Some(CommandView::Rfnr(w)),
        parse_spec(kw_rnto() + seq![' '] + w) == Some(CommandView::Rnto(w)),
        parse_spec(kw_mkd() + seq![' '] + w) == Some(CommandView::Mkd(w)),
        parse_spec(kw_dele() + seq![' '] + w) == Some(CommandView::Dele(w)),
        parse_spec(kw_rmd() + seq![' '] + w) == Some(CommandView::Rmd(w)),
{
    assert(is_word(kw_user()));
    lemma_two_words(kw_user(), w);
    assert(kw_user()[0] != kw_type()[0]);
    assert(kw_user().len() != kw_pwd().len());
    assert(kw_user()[0] != kw_list()[0]);
    assert(kw_user()[0] != kw_pasv()[0]);
    assert(is_word(kw_pass()));
    lemma_two_words(kw_pass(), w);
    assert(kw_pass()[0] != kw_type()[0]);
    assert(kw_pass().len() != kw_pwd().len());
    assert(kw_pass()[0] != kw_list()[0]);
    assert(kw_pass()[3] != kw_pasv()[3]);
    assert(kw_pass()[0] != kw_user()[0]);
    assert(is_word(kw_cwd()));
    lemma_two_words(kw_cwd(), w);
    assert(kw_cwd().len() != kw_type().len());
    assert(kw_cwd()[0] != kw_pwd()[0]);
    assert(kw_cwd().len() != kw_list().len());
    assert(kw_cwd().len() != kw_pasv().len());
    assert(kw_cwd().len() != kw_user().len());
    assert(kw_cwd().len() != kw_pass().len());
    assert(is_word(kw_retr()));
    lemma_two_words(kw_retr(), w);
    assert(kw_retr()[0] != kw_type()[0]);
    assert(kw_retr().len() != kw_pwd().len());
    assert(kw_retr()[0] != kw_list()[0]);
    assert(kw_retr()[0] != kw_pasv()[0]);
    assert(kw_retr()[0] != kw_user()[0]);
    assert(kw_retr()[0] != kw_pass()[0]);
    assert(kw_retr().len() != kw_cwd().len());
    assert(is_word(kw_stor()));
    lemma_two_words(kw_stor(), w);
    assert(kw_stor()[0] != kw_type()[0]);
    assert(kw_stor().len() != kw_pwd().len());
    assert(kw_stor()[0] != kw_list()[0]);
    assert(kw_stor()[0] != kw_pasv()[0]);
    assert(kw_stor()[0] != kw_user()[0]);
    assert(kw_stor()[0] != kw_pass()[0]);
    assert(kw_stor().len() != kw_cwd().len());
    assert(kw_stor()[0] != kw_retr()[0]);
    assert(is_word(kw_rnfr()));
    lemma_two_words(kw_rnfr(), w);
    assert(kw_rnfr()[0] != kw_type()[0]);
    assert(kw_rnfr().len() != kw_pwd().len());
    assert(kw_rnfr()[0] != kw_list()[0]);
    assert(kw_rnfr()[0] != kw_pasv()[0]);
    assert(kw_rnfr()[0] != kw_user()[0]);
    assert(kw_rnfr()[0] != kw_pass()[0]);
    assert(kw_rnfr().len() != kw_cwd().len());
    assert(kw_rnfr()[1] != kw_retr()[1]);
    assert(kw_rnfr()[0] != kw_stor()[0]);
    assert(is_word(kw_rnto()));
    lemma_two_words(kw_rnto(), w);
    assert(kw_rnto()[0] != kw_type()[0]);
    assert(kw_rnto().len() != kw_pwd().len());
    assert(kw_rnto()[0] != kw_list()[0]);
    assert(kw_rnto()[0] != kw_pasv()[0]);
    assert(kw_rnto()[0] != kw_user()[0]);
    assert(kw_rnto()[0] != kw_pass()[0]);
    assert(kw_rnto().len() != kw_cwd().len());
    assert(kw_rnto()[1] != kw_retr()[1]);
    assert(kw_rnto()[0] != kw_stor()[0]);
    assert(kw_rnto()[2] != kw_rnfr()[2]);
    assert(is_word(kw_mkd()));
    lemma_two_words(kw_mkd(), w);
    assert(kw_mkd().len() != kw_type().len());
    assert(kw_mkd()[0] != kw_pwd()[0]);
    assert(kw_mkd().len() != kw_list().len());
    assert(kw_mkd().len() != kw_pasv().len());
    assert(kw_mkd().len() != kw_user().len());
    assert(kw_mkd().len() != kw_pass().len());
    assert(kw_mkd()[0] != kw_cwd()[0]);
    assert(kw_mkd().len() != kw_retr().len());
    assert(kw_mkd().len() != kw_stor().len());
    assert(kw_mkd().len() != kw_rnfr().len());
    assert(kw_mkd().len() != kw_rnto().len());
    assert(is_word(kw_dele()));
    lemma_two_words(kw_dele(), w);
    assert(kw_dele()[0] != kw_type()[0]);
    assert(kw_dele().len() != kw_pwd().len());
    assert(kw_dele()[0] != kw_list()[0]);
    assert(kw_dele()[0] != kw_pasv()[0]);
    assert(kw_dele()[0] != kw_user()[0]);
    assert(kw_dele()[0] != kw_pass()[0]);
    assert(kw_dele().len() != kw_cwd().len());
    assert(kw_dele()[0] != kw_retr()[0]);
    assert(kw_dele()[0] != kw_stor()[0]);
    assert(kw_dele()[0] != kw_rnfr()[0]);
    assert(kw_dele()[0] != kw_rnto()[0]);
    assert(kw_dele().len() != kw_mkd().len());
    assert(is_word(kw_rmd()));
    lemma_two_words(kw_rmd(), w);
    assert(kw_rmd().len() != kw_type().len());
    assert(kw_rmd()[0] != kw_pwd()[0]);
    assert(kw_rmd().len() != kw_list().len());
    assert(kw_rmd().len() != kw_pasv().len());
    assert(kw_rmd().len() != kw_user().len());
    assert(kw_rmd().len() != kw_pass().len());
    assert(kw_rmd()[0] != kw_cwd()[0]);
    assert(kw_rmd().len() != kw_retr().len());
    assert(kw_rmd().len() != kw_stor().len());
    assert(kw_rmd().len() != kw_rnfr().len());
    assert(kw_rmd().len() != kw_rnto().len());
    assert(kw_rmd()[0] != kw_mkd()[0]);
    assert(kw_rmd().len() != kw_dele().len());
}

/// Words after the one a command uses change nothing.
pub proof fn law_extra_words_ignored(line: Seq<char>, more: Seq<char>)
    requires
        line_words(line).len() >= 2,
        line_words(line + more).len() >= 2,
        line_words(line + more)[0] == line_words(line)[0],
        line_words(line + more)[1] == line_words(line)[1],
    ensures
        parse_spec(line + more) == parse_spec(line),
{
}

/// `USER name extra` is `USER name`: for words `w` and `x`, the third word
/// is ignored (and likewise for every command).
pub proof fn law_third_word_ignored(k: Seq<char>, w: Seq<char>, x: Seq<char>)
    requires
        is_word(k),
        is_word(w),
        is_word(x),
    ensures
        parse_spec(k + seq![' '] + w + seq![' '] + x) == parse_spec(k + seq![' '] + w),
{
    let l2 = k + seq![' '] + w;
    let l3 = l2 + seq![' '] + x;
    lemma_two_words(k, w);
    assert(l3[0] == k[0]);
    assert(l3.last() == x[x.len() - 1]);
    assert(trim_start(l3) == l3);
    assert(trim_end(l3) == l3);
    lemma_scan_words_append(Seq::<char>::empty(), k);
    assert(Seq::<char>::empty() + k =~= k);
    let a = k + seq![' '];
    assert(a.drop_last() =~= k);
    lemma_scan_words_append(a, w);
    assert(Seq::<char>::empty() + w =~= w);
    let b = l2 + seq![' '];
    assert(b.drop_last() =~= l2);
    assert(scan_words(b) == (seq![k, w], Seq::<char>::empty())) by {
        assert(seq![k].push(w) =~= seq![k, w]);
    }
    lemma_scan_words_append(b, x);
    assert(Seq::<char>::empty() + x =~= x);
    assert(line_words(l3) == seq![k, w, x]) by {
        assert(seq![k, w].push(x) =~= seq![k, w, x]);
    }
}

/// A name with no quote, backslash or slash is listed as it is, at the end
/// of its line: nothing else is trimmed off it.
pub proof fn law_plain_names_listed_unchanged(e: ListingEntryView, date: Seq<char>)
    requires
        forall|i: int|
            0 <= i < e.name.len() ==> #[trigger] e.name[i] != '"' && e.name[i] != '\\' && e.name[i]
                != '/',
    ensures
        clean_name(e.name) == e.name,
        (" "@ + e.name + "\r\n"@).is_suffix_of(listing_line(e, date)),
{
    let n = e.name;
    if n.len() > 0 {
        assert(n[0] != '"' && n[0] != '\\' && n[0] != '/');
        assert(n.last() == n[n.len() - 1]);
    }
    assert(clean_name(n) == n);
    let front = mode_text_prefix(e, date);
    assert(listing_line(e, date) =~= front + (" "@ + n + "\r\n"@));
}

/// What a listing line holds before its name.
spec fn mode_text_prefix(e: ListingEntryView, date: Seq<char>) -> Seq<char> {
    crate::listing::mode_text(e.is_dir) + "    1 owner    group "@ + crate::text::decimal(
        e.size as nat,
    ) + " "@ + date
}

/// The number that a digit character stands for.
pub open spec fn digit_value(c: char) -> int {
    c as int - '0' as int
}

/// The number that a string of decimal digits stands for.
pub open spec fn decimal_value(s: Seq<char>) -> int
    decreases s.len(),
{
    if s.len() == 0 {
        0
    } else {
        decimal_value(s.drop_last()) * 10 + digit_value(s.last())
    }
}

proof fn lemma_digit_char(d: nat)
    requires
        d < 10,
    ensures
        '0' <= digit_char(d) <= '9',
        digit_value(digit_char(d)) == d,
        d != 0 ==> digit_char(d) != '0',
{
}

/// A number is written in decimal with digits only, without leading zero,
/// and the digits read back as the number.
pub proof fn law_decimal_reads_back(n: nat)
    ensures
        decimal(n).len() > 0,
        forall|i: int| 0 <= i < decimal(n).len() ==> '0' <= #[trigger] decimal(n)[i] <= '9',
        n != 0 ==> decimal(n)[0] != '0',
        decimal_value(decimal(n)) == n,
    decreases n,
{
    if n < 10 {
        lemma_digit_char(n);
        assert(decimal(n) =~= seq![digit_char(n)]);
        assert(decimal(n).drop_last() =~= Seq::<char>::empty());
        assert(decimal_value(Seq::<char>::empty()) == 0);
        assert(decimal_value(decimal(n)) == decimal_value(decimal(n).drop_last()) * 10
            + digit_value(decimal(n).last()));
    } else {
        law_decimal_reads_back(n / 10);
        lemma_digit_char(n % 10);
        let front = decimal(n / 10);
        assert(decimal(n) == front.push(digit_char(n % 10)));
        assert(decimal(n).drop_last() =~= front);
        assert forall|i: int| 0 <= i < decimal(n).len() implies '0' <= #[trigger] decimal(n)[i] <= '9' by {
            if i < front.len() {
                assert(decimal(n)[i] == front[i]);
            }
        }
        assert(decimal(n)[0] == front[0]);
        assert(decimal_value(decimal(n)) == decimal_value(front) * 10 + digit_value(
            digit_char(n % 10),
        ));
        assert(n == (n / 10) * 10 + n % 10);
    }
}

/// The two numbers of the PASV reply read back as the data port.
pub proof fn law_pasv_numbers_read_back(port: u16)
    ensures
        decimal_value(decimal((port / 256) as nat)) * 256 + decimal_value(decimal((port % 256) as nat))
            == port,
{
    law_decimal_reads_back((port / 256) as nat);
    law_decimal_reads_back((port % 256) as nat);
}

/// The text after the last `/` has no `/`.
proof fn lemma_last_component_plain(t: Seq<char>)
    ensures
        !last_component(t).contains('/'),
    decreases t.len(),
{
    if t.len() > 0 && t.last() != '/' {
        lemma_last_component_plain(t.drop_last());
        let c = last_component(t);
        assert forall|i: int| 0 <= i < c.len() implies c[i] != '/' by {
            if i < c.len() - 1 {
                lemma_no_slash_at(last_component(t.drop_last()), i);
            }
        }
    }
}

/// The last component after a `/` is the text that follows it.
proof fn lemma_last_component_after_slash(y: Seq<char>, m: Seq<char>)
    requires
        !m.contains('/'),
    ensures
        last_component(y + seq!['/'] + m) == m,
    decreases m.len(),
{
    if m.len() == 0 {
        assert(y + seq!['/'] + m =~= y + seq!['/']);
    } else {
        let v = m.drop_last();
        assert(!v.contains('/')) by {
            if v.contains('/') {
                let k = choose|k: int| 0 <= k < v.len() && v[k] == '/';
                assert(m[k] == '/');
            }
        }
        lemma_last_component_after_slash(y, v);
        assert((y + seq!['/'] + m).drop_last() =~= y + seq!['/'] + v);
        lemma_no_slash_at(m, m.len() - 1);
        assert(v.push(m.last()) =~= m);
    }
}

/// A directory sent by RETR comes as an archive that STOR unpacks: its
/// name, stored in any directory, counts as an archive.
pub proof fn law_sent_directory_is_unpacked(dir_path: Seq<char>, into: Seq<char>)
    ensures
        is_archive_spec(into + seq!['/'] + archive_name_spec(dir_path)),
{
    reveal_strlit(".tar");
    assert(".tar"@ =~= archive_suffix());
    let base: Seq<char> = match file_name(dir_path) {
        Some(n) => n,
        None => Seq::<char>::empty(),
    };
    if file_name(dir_path) is Some {
        lemma_last_component_plain(trim_trailing_components(dir_path));
    }
    assert(!base.contains('/')) by {
        if base.contains('/') {
            let k = choose|k: int| 0 <= k < base.len() && base[k] == '/';
            if file_name(dir_path) is Some {
                lemma_no_slash_at(last_component(trim_trailing_components(dir_path)), k);
            }
        }
    }
    let m = base + archive_suffix();
    assert(archive_name_spec(dir_path) == m);
    assert(!m.contains('/')) by {
        if m.contains('/') {
            let k = choose|k: int| 0 <= k < m.len() && m[k] == '/';
            if k < base.len() {
                lemma_no_slash_at(base, k);
            }
        }
    }
    let path = into + seq!['/'] + m;
    assert(path.last() == 'r');
    assert(trim_trailing_components(path) == path);
    lemma_last_component_after_slash(into, m);
    assert(m != seq!['.', '.']) by {
        assert(m.len() >= 4);
    }
    assert(file_name(path) == Some(m));
    assert(m.subrange(m.len() - 4, m.len() as int) =~= archive_suffix());
}

/// A listing line starts with `d` for a directory and `-` for a file, and
/// ends with a carriage return and line feed.
pub proof fn law_listing_line_kind(e: ListingEntryView, date: Seq<char>)
    ensures
        listing_line(e, date)[0] == (if e.is_dir {
            'd'
        } else {
            '-'
        }),
        seq!['\r', '\n'].is_suffix_of(listing_line(e, date)),
{
    reveal_strlit("d");
    reveal_strlit("-");
    reveal_strlit("\r\n");
    let line = listing_line(e, date);
    let first: Seq<char> = if e.is_dir {
        "d"@
    } else {
        "-"@
    };
    assert(line[0] == first[0]);
    assert(line.subrange(line.len() - 2, line.len() as int) =~= "\r\n"@);
}

/// Two words are read apart when a space, tab, carriage return or line
/// feed stands between them.
pub proof fn law_ascii_separators(a: Seq<char>, b: Seq<char>, c: char)
    requires
        is_word(a),
        is_word(b),
        c == ' ' || c == '\t' || c == '\r' || c == '\n',
    ensures
        line_words(a + seq![c] + b) == seq![a, b],
{
    let line = a + seq![c] + b;
    assert(line[0] == a[0]);
    assert(line.last() == b[b.len() - 1]);
    assert(trim_start(line) == line);
    assert(trim_end(line) == line);
    lemma_scan_words_append(Seq::<char>::empty(), a);
    assert(Seq::<char>::empty() + a =~= a);
    let with_sep = a + seq![c];
    assert(with_sep.drop_last() =~= a);
    assert(scan_words(with_sep) == (seq![a], Seq::<char>::empty()));
    lemma_scan_words_append(with_sep, b);
    assert(Seq::<char>::empty() + b =~= b);
    assert(seq![a].push(b) =~= seq![a, b]);
}

/// The name of the last component of `y/m` is `m`, for a proper name `m`.
pub proof fn law_file_name_of_last(y: Seq<char>, m: Seq<char>)
    requires
        is_proper_name(m),
    ensures
        file_name(y + seq!['/'] + m) == Some(m),
{
    let path = y + seq!['/'] + m;
    lemma_no_slash_at(m, m.len() - 1);
    assert(path.last() == m.last());
    if m.len() >= 2 {
        lemma_no_slash_at(m, m.len() - 2);
        assert(path[path.len() - 2] == m[m.len() - 2]);
    } else if m.last() == '.' {
        assert(m =~= seq!['.']);
    }
    assert(trim_trailing_components(path) == path);
    lemma_last_component_after_slash(y, m);
}

/// A quote, backslash or slash at each end of a listed name is trimmed
/// off, and nothing more when the name inside starts and ends otherwise.
pub proof fn law_edges_trimmed(n: Seq<char>, c1: char, c2: char)
    requires
        n.len() > 0,
        n[0] != '"' && n[0] != '\\' && n[0] != '/',
        n.last() != '"' && n.last() != '\\' && n.last() != '/',
        c1 == '"' || c1 == '\\' || c1 == '/',
        c2 == '"' || c2 == '\\' || c2 == '/',
    ensures
        clean_name(seq![c1] + n + seq![c2]) == n,
{
    let w = seq![c1] + n + seq![c2];
    assert(w.drop_first() =~= n + seq![c2]);
    assert((n + seq![c2])[0] == n[0]);
    assert(w[0] == c1);
    assert(trim_name_start(n + seq![c2]) == n + seq![c2]);
    assert(trim_name_start(w) == trim_name_start(w.drop_first()));
    assert((n + seq![c2]).last() == c2);
    assert((n + seq![c2]).drop_last() =~= n);
    assert(trim_name_end(n) == n);
}

/// A CWD that does not find a directory leaves the session as it was.
pub proof fn law_failed_cwd_changes_nothing(c: ClientView, dir: Seq<char>, e: bool, d: bool)
    requires
        !(e && d),
    ensures
        command_step(c, CommandView::Cwd(dir), e, d).0 == c,
{
}

/// USER and PASS record the name and the password and change nothing
/// else.
pub proof fn law_user_and_pass_recorded(c: ClientView, u: Seq<char>, p: Seq<char>, e: bool, d: bool)
    ensures
        ({
            let after = command_step(c, CommandView::Usr(u), e, d).0;
            &&& after.session.usr == u
            &&& after.session.pwd == c.session.pwd
            &&& after.session.current_dir == c.session.current_dir
            &&& after.session.pending_file == c.session.pending_file
            &&& after.passive == c.passive
        }),
        ({
            let after = command_step(c, CommandView::Pass(p), e, d).0;
            &&& after.session.pwd == p
            &&& after.session.usr == c.session.usr
            &&& after.session.current_dir == c.session.current_dir
        }),
{
}

} // verus!
