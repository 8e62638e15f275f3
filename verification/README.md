# Windows App AutoLogin

A desktop helper that fills the credential prompts of Microsoft's Windows App, and
only when the visible prompt clearly belongs to one saved account. Its decisions are
a verified library; the program around it looks at the screen, types, runs processes
and keeps files.

## Layout

- `src/` is the library. Every function has a contract, and Verus proves it.
  - `text`, `native_path`, `models`, `secret_text`, `waiting`, `selection`: the basics.
  - `identity`, `processes`: which running processes are the trusted application.
  - `ax_tree`, `prompt_text`, `prompt`, `prompt_scan`, `inspection`, `sheet_episode`,
    `monitor`: what a look at the screen says.
  - `live`, `revalidate`, `fill`, `submit`, `post_submit`, `summary`, `login_laws`: a
    login, checked again before every step that has an effect.
  - `applescript`, `protocol`, `collector`, `diagnose`, `json_output`: the bounded and
    redacted diagnostic report.
  - `reconnect`, `child_exit`: ending and restarting other processes.
  - `control`, `startup`, `supervisor`, `supervision`, `reloading`,
    `supervision_laws`: the supervisor of the worker and of the settings window.
  - `private_permissions`: which files are private.
- `tests/` runs the library on concrete values.
- `app/` is the program.

## What is proved

Functions named `law_...` state what holds of the library as a whole. Among them:

- a password is loaded for, typed into and submitted from only a prompt that names the
  account and no other, in front, in the trusted process, with the focus in its secure
  field (`login_laws`), and a typed password is accounted for (`fill`);
- a prompt is submitted at most once (`submit`), and a login counts as authenticated
  only after the prompt was away for a while (`post_submit`);
- nothing is read of a window in the background but its title (`inspection`);
- a report holds no value, title or name that was read from the screen (`protocol`);
- an ambiguous storage stays blocked until a restart, a stop is a barrier, and nothing
  starts during the exit (`supervision_laws`).

The functions marked `external_body`, and the one `assume_specification`, call other
crates or the standard library; each says what it claims of them.
