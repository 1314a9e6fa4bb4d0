# proxmox-znc

Host-side installer for a small Alpine LXC container on Proxmox that runs a
ZNC IRC bouncer (defaults: Libera, `irc.libera.chat:6697`).

The logic lives in `src/` and is verified with Verus:

- `cli` — the settings, and the steps that ask for the missing ones
  (`Config::prompt_missing`, `Config::answer`);
- `prompt` — reading a typed answer (text, number, choice, secret);
- `storage` — the storages that `pvesm status` lists, and which can hold templates;
- `spec` — the install settings (`Spec::from`), the dry-run and summary boxes,
  the Alpine template choice, host checks;
- `install` — the install as a sequence of steps (`Spec::install`);
- `commands` — the `pct` arguments of each step, and the ZNC `--makeconf` answers;
- `resolv` — the nameservers taken from the host and written into the container;
- `render` — the coloured box;
- `lexical` — words, lines, trimming and decimal numbers;
- `process` — the `CommandRunner` trait and the failure messages.

`app/` is the `proxmox-znc` command: it reads the command line and environment
(clap), asks on the terminal, runs programs, sleeps between retries and writes
the temporary `resolv.conf`.
