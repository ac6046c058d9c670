//! The thane agent-queue instructions kept in the coding agent's memory
//! file, a Markdown file in a directory under the user's home.
//!
//! The instructions block is appended at the end of the file and starts with
//! a versioned marker. An older block (found by its older marker) is replaced
//! by the current one; a file that already holds the current marker is left
//! alone.
use vstd::prelude::*;

use crate::dirs::{home_dir, join_path, path_join};
use crate::text::{
    chars_of, contains_seq, ends_with, find_exec, first_occurrence, occurs_at, push_char, push_str,
    string_from_range,
};

verus! {

/// The marker of the previous version of the instructions block.
pub const OLD_MARKER: &'static str = "<!-- thane-agent-queue-instructions-v3 -->";

/// The marker of the current version of the instructions block.
pub const MARKER: &'static str = "<!-- thane-agent-queue-instructions-v4 -->";

/// The text of the current instructions block, after its marker line.
pub const INSTRUCTIONS_BODY: &'static str = r#"## thane Agent Queue Integration

When running inside a thane terminal workspace, you have access to the thane agent queue. The `$THANE_SOCKET_PATH` environment variable is automatically set in all thane terminal sessions.

### Submitting tasks to the agent queue

When the user asks you to add a plan to the thane queue, add tasks to the queue, or schedule work for later execution, write each task to a temp file and submit it:

```bash
cat <<'TASK' > /tmp/thane-task.md
Your detailed task description here.
TASK
thane-cli queue submit /tmp/thane-task.md
```

### Queue management

- `thane-cli queue list` — list all queued tasks
- `thane-cli queue status <id>` — check a specific task
- `thane-cli queue cancel <id>` — cancel a queued task

### Formatting tasks for autonomous execution

Each queued task runs as an **independent, headless coding-agent session** with no user interaction. Format every task so an autonomous agent can execute it without clarification:

1. **Working directory** — Always include the absolute path: `Working directory: /path/to/project`
2. **Objective** — A clear, concise summary of what the task should accomplish
3. **Context** — Relevant background: why this change is needed, what preceded it, any constraints
4. **Detailed instructions** — Step-by-step implementation details: which files to modify, what logic to add/change, expected behavior, edge cases to handle
5. **Acceptance criteria** — How to verify the task is complete (e.g., tests to run, expected output, commands to validate)
6. **References** — Relevant file paths, function names, documentation links, or related code patterns

### Submitting multi-phase plans

When the user asks you to queue a plan with multiple phases, **submit each phase as a separate task** rather than one monolithic task. Each phase should depend on the successful completion of the previous phase.

- Use `thane-cli queue submit --depends-on <previous-task-id>` to chain phases together
- The dependent task will only execute after its dependency completes successfully
- If a phase fails, subsequent dependent phases will not run

Example workflow for a 3-phase plan:

```bash
# Phase 1
cat <<'TASK' > /tmp/thane-phase1.md
## Phase 1: <title>
Working directory: /path/to/project
...detailed instructions...
TASK
PHASE1_ID=$(thane-cli queue submit /tmp/thane-phase1.md)

# Phase 2 — depends on Phase 1
cat <<'TASK' > /tmp/thane-phase2.md
## Phase 2: <title>
Working directory: /path/to/project
Depends on: Phase 1 — <brief description of what Phase 1 does>
...detailed instructions...
TASK
PHASE2_ID=$(thane-cli queue submit --depends-on "$PHASE1_ID" /tmp/thane-phase2.md)

# Phase 3 — depends on Phase 2
cat <<'TASK' > /tmp/thane-phase3.md
## Phase 3: <title>
Working directory: /path/to/project
Depends on: Phase 2 — <brief description of what Phase 2 does>
...detailed instructions...
TASK
thane-cli queue submit --depends-on "$PHASE2_ID" /tmp/thane-phase3.md
```

### Guidelines

- Only submit to the queue when the user explicitly asks (e.g., "add this plan to my thane queue", "add to the queue", "run this later")
- Write each task as if handing it to a developer who has never seen the codebase — include all necessary context
- Each queued task runs as an independent coding-agent session with no access to your current conversation
- For multi-phase plans, always submit phases independently with dependency chaining rather than as a single task
- Include in each dependent phase a brief description of what the prior phase was supposed to accomplish, so the agent can verify prerequisites
"#;

/// The current instructions block: a blank line, the marker, then the body.
pub open spec fn instructions_spec() -> Seq<char> {
    "\n"@ + MARKER@ + "\n"@ + INSTRUCTIONS_BODY@
}

/// The current instructions block, as appended to the memory file.
pub fn thane_instructions() -> (r: String)
    ensures
        r@ == instructions_spec(),
{
    let mut r = String::new();
    push_str(&mut r, "\n");
    push_str(&mut r, MARKER);
    push_str(&mut r, "\n");
    push_str(&mut r, INSTRUCTIONS_BODY);
    assert(r@ =~= instructions_spec());
    r
}

/// The current instructions block holds the current marker.
pub proof fn lemma_instructions_hold_marker()
    ensures
        contains_seq(instructions_spec(), MARKER@),
{
    let s = instructions_spec();
    reveal_strlit("\n");
    assert(s.subrange(1, 1 + MARKER@.len() as int) =~= MARKER@);
    assert(occurs_at(s, MARKER@, 1));
}

/// The memory file `<home>/<dir_name>/<file_name>`, where the home directory
/// is known.
pub fn claude_md_path_in(home: Option<String>, dir_name: &str, file_name: &str) -> (r: Option<String>)
    ensures
        match home {
            Some(h) => r matches Some(p) && p@ == path_join(path_join(h@, dir_name@), file_name@),
            None => r is None,
        },
{
    match home {
        Some(h) => {
            let d = join_path(h.as_str(), dir_name);
            Some(join_path(d.as_str(), file_name))
        },
        None => None,
    }
}

/// The memory file `~/<dir_name>/<file_name>` under the user's home
/// directory (`dirs::home_dir`), where that is known.
pub fn claude_md_path(dir_name: &str, file_name: &str) -> (r: Option<String>)
    ensures
        r matches Some(p) ==> exists|home: Seq<char>| p@ == path_join(path_join(home, dir_name@), file_name@),
{
    claude_md_path_in(home_dir(), dir_name, file_name)
}

/// Whether the text of a memory file holds the current versioned instructions.
pub fn has_current_instructions(content: &str) -> (r: bool)
    ensures
        r == contains_seq(content@, MARKER@),
{
    let v = chars_of(content);
    let m = chars_of(MARKER);
    find_exec(v.as_slice(), m.as_slice()).is_some()
}

/// The text without an old instructions block: everything before the old
/// marker (and before the line feed just ahead of it), where one occurs.
pub open spec fn without_old_instructions(content: Seq<char>) -> Seq<char> {
    match first_occurrence(content, OLD_MARKER@) {
        Some(start) => if start > 0 && content[start - 1] == '\n' {
            content.take(start - 1)
        } else {
            content.take(start)
        },
        None => content,
    }
}

/// Removes the old thane instruction block from content.
///
/// The old block starts at `OLD_MARKER` and extends to the end of the file
/// (since it was always appended at the end). The line feed that the block
/// was appended with is removed too.
pub fn remove_old_instructions(content: &str) -> (r: String)
    ensures
        r@ == without_old_instructions(content@),
{
    let v = chars_of(content);
    let m = chars_of(OLD_MARKER);
    match find_exec(v.as_slice(), m.as_slice()) {
        Some(start) => {
            // The block was appended with a leading newline in the
            // instructions, so back up over the preceding newline if present.
            let trim_start = if start > 0 && v[start - 1] == '\n' {
                start - 1
            } else {
                start
            };
            let r = string_from_range(v.as_slice(), 0, trim_start);
            assert(v@.subrange(0, trim_start as int) =~= v@.take(trim_start as int));
            r
        },
        None => content.to_owned(),
    }
}

/// What is left after removing the old block is a prefix of the text and no
/// longer holds the old marker.
pub proof fn lemma_old_instructions_removed(content: Seq<char>)
    ensures
        content.take(without_old_instructions(content).len() as int) == without_old_instructions(content),
        !contains_seq(without_old_instructions(content), OLD_MARKER@),
{
    let r = without_old_instructions(content);
    match first_occurrence(content, OLD_MARKER@) {
        Some(start) => {
            crate::text::lemma_first_occurrence(content, OLD_MARKER@);
            reveal_strlit("<!-- thane-agent-queue-instructions-v3 -->");
            assert(OLD_MARKER@.len() > 0);
            assert(r.len() <= start);
            assert(content.take(r.len() as int) =~= r);
            assert forall|j: int| !occurs_at(r, OLD_MARKER@, j) by {
                if occurs_at(r, OLD_MARKER@, j) {
                    let m = OLD_MARKER@.len() as int;
                    assert(r.subrange(j, j + m) =~= content.subrange(j, j + m));
                    assert(occurs_at(content, OLD_MARKER@, j));
                }
            }
        },
        None => {
            assert(content.take(content.len() as int) =~= content);
        },
    }
}

/// The new text of a memory file that lacks the current instructions: the old
/// block removed, a line feed added if the text does not end with one, and the
/// current block appended. `None` when the current instructions are there.
pub open spec fn upgraded_claude_md_spec(existing: Seq<char>) -> Option<Seq<char>> {
    if contains_seq(existing, MARKER@) {
        None
    } else {
        let kept = if contains_seq(existing, OLD_MARKER@) {
            without_old_instructions(existing)
        } else {
            existing
        };
        let sep = if kept.len() > 0 && !ends_with(kept, "\n"@) {
            "\n"@
        } else {
            Seq::empty()
        };
        Some(kept + sep + instructions_spec())
    }
}

/// The new text of a memory file holding `existing`, or `None` if it already
/// holds the current instructions (the decision part of injecting them).
///
/// If an older version of the instructions exists, it is replaced with the
/// current version.
pub fn upgraded_claude_md(existing: &str) -> (r: Option<String>)
    ensures
        match r {
            Some(n) => upgraded_claude_md_spec(existing@) == Some(n@),
            None => upgraded_claude_md_spec(existing@) is None,
        },
{
    // Already has the current version — nothing to do.
    if has_current_instructions(existing) {
        return None;
    }
    let v = chars_of(existing);
    let old = chars_of(OLD_MARKER);
    // If old marker is present, remove the old block and replace with new.
    let mut new_content = if find_exec(v.as_slice(), old.as_slice()).is_some() {
        remove_old_instructions(existing)
    } else {
        existing.to_owned()
    };
    let ghost kept = new_content@;
    // Append current instructions.
    let nv = chars_of(new_content.as_str());
    if nv.len() > 0 && nv[nv.len() - 1] != '\n' {
        push_char(&mut new_content, '\n');
        proof {
            reveal_strlit("\n");
            assert(!ends_with(kept, "\n"@)) by {
                if ends_with(kept, "\n"@) {
                    assert(kept.skip(kept.len() - 1)[0] == kept[kept.len() - 1]);
                }
            }
        }
        assert(new_content@ =~= kept + "\n"@);
    } else {
        proof {
            reveal_strlit("\n");
            assert("\n"@ =~= seq!['\n']);
            if kept.len() > 0 {
                assert(kept.skip(kept.len() - 1) =~= seq![kept[kept.len() - 1]]);
            }
        }
        assert(new_content@ =~= kept + Seq::<char>::empty());
    }
    let instructions = thane_instructions();
    push_str(&mut new_content, instructions.as_str());
    Some(new_content)
}

/// Injecting twice changes nothing the second time: the upgraded text holds
/// the current instructions. The text kept before the block is the original
/// text without any old block.
pub proof fn lemma_upgrade_idempotent(existing: Seq<char>)
    ensures
        upgraded_claude_md_spec(existing) matches Some(n) ==> upgraded_claude_md_spec(n) is None,
        upgraded_claude_md_spec(existing) matches Some(n) ==> n.take(
            n.len() - instructions_spec().len(),
        ).take(
            if contains_seq(existing, OLD_MARKER@) {
                without_old_instructions(existing).len() as int
            } else {
                existing.len() as int
            },
        ) == if contains_seq(existing, OLD_MARKER@) {
            without_old_instructions(existing)
        } else {
            existing
        },
{
    if let Some(n) = upgraded_claude_md_spec(existing) {
        let kept = if contains_seq(existing, OLD_MARKER@) {
            without_old_instructions(existing)
        } else {
            existing
        };
        let sep = if kept.len() > 0 && !ends_with(kept, "\n"@) {
            "\n"@
        } else {
            Seq::empty()
        };
        let ins = instructions_spec();
        lemma_instructions_hold_marker();
        let i = choose|i: int| occurs_at(ins, MARKER@, i);
        let off = kept.len() + sep.len();
        assert(n == kept + sep + ins);
        assert(n.subrange(off + i, off + i + MARKER@.len()) =~= ins.subrange(i, i + MARKER@.len()));
        assert(occurs_at(n, MARKER@, off + i));
        assert(n.take(n.len() - ins.len()) =~= kept + sep);
        assert((kept + sep).take(kept.len() as int) =~= kept);
    }
}

} // verus!
