# gitbuddy

A library that turns a staged Git diff and a language model's answer into a
Conventional Commit subject, with its behaviour stated in Verus contracts and
proved.

- `src/` is the verified library:
  - `commit_message`: finding the subject in a model's answer (JSON field,
    a line of its own, or a subject embedded in running text), and its laws.
  - `flow`: the course of `gitbuddy ai` as a state machine (staging, request,
    repair, confirmation, commit, push) and the laws every step keeps.
  - `ai`: how much of the diff the prompt carries, the diff summary and its
    laws, the diagnostic text and small decisions of the command.
  - `config`, `llm`, `prompt`, `git`: configuration, request settings and
    request bodies, streamed answers, vendor replies, prompts, the `git`
    commands (shown instead of run in a dry run) and `git` output.
  - `text`: character-level helpers stated over `Seq<char>`.
- `app/` is the command-line program: it runs `git`, reads and writes the
  configuration file, talks to the model vendors and asks the user, and
  hands the results to the library.
- `tests/` runs the library on concrete inputs.
