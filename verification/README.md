# winglide

Keyboard-driven taskbar navigation for Windows 11: cycling through taskbar
windows with hotkeys, giving every window its own taskbar button, and a
virtual desktop indicator on the taskbar.

`src/` is the library, verified with Verus: the hotkey set and its two
delivery mechanisms, the low-level hook's key matching, taskbar button
filtering, ordering and foreground matching, the cycling list, the
AppUserModelID record used to uncombine and restore taskbar buttons, the
update decision, the indicator's placement and message handling, the debug
console state and the tree-shaped log renderer.

`app/` is the Windows program around it: Win32 windows and hooks, UI
Automation, COM, `winvd`, HTTP, processes and the floating-point drawing of
the indicator. It calls the library for every decision.

`tests/` exercises the library on concrete values.
