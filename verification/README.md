# android-kvm

A USB Android software KVM backed by scrcpy: swipe the host pointer through a
configured screen edge to move input focus to the Android device, and back.

The library under `src/` holds the decisions, each with a Verus contract:

- `edge` — the edge switch that moves focus between host and Android.
- `runtime` — pointer geometry and the state of the KVM loop (`RuntimeState`),
  which says at each poll what the loop has to do.
- `scrcpy_control` — the UHID control messages of the virtual mouse, the
  splitting of large motions into HID reports, and the adb/scrcpy command
  lines of the control session.
- `android` — the Android display size (`adb shell wm size`) and the adb
  command that moves the Android pointer.
- `scrcpy` — scrcpy settings, the audio-only scrcpy command, shell quoting.
- `config` — the settings and the checks they must pass.
- `command`, `text` — command lines, and the text handling (trimming, lines,
  words, decimal and hexadecimal numbers) the others build on.

`app/` is the program around it: command-line parsing, the configuration file,
the host pointer backend, running processes and sockets, and the loop itself.
