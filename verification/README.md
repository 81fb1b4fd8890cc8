# gpu-driver-helper

Linux and WSL GPU/Vulkan diagnosis and repair planning. Its decisions and
parsers are proved in Verus against stated specifications; the commands it
hands to a runner are limited by that runner's permissions, and the time
limits given with them are not part of any proof.

- `src/text.rs` models the string operations the probes use (lines, trim,
  search, split) and proves executable versions against them.
- `src/probe.rs` turns what was read of the machine and the output of
  `lspci`, `nvidia-smi` and `vulkaninfo` into a `SystemReport`.
- `src/recipes.rs` chooses an allowlisted repair plan for a report.
- `src/executor.rs` applies a plan: a verified step machine decides, from
  the confirmation word and each answer, which command of the plan to ask
  for next, and `apply_plan` drives it against a `CommandRunner`.
- `src/commands.rs` and `src/models.rs` hold the records and the runner trait.
- `app/` is the command-line program: argument parsing, file and process
  access, and JSON output.
