# ps_aim_windows

A driver for the PS VR Aim Controller on Windows. It passes the controller on as a
DualShock 4, as an Xbox 360 pad whose right stick is the aim, or as mouse and keyboard,
over USB and Bluetooth, with recoil, light and an optional camera tracker.

`src/` is the verified library: what the controller's reports say and how its output
reports are sealed, the settings file, and the decisions of the three modes that do not
rest on floating-point arithmetic. Its contracts are checked by Verus. It does no input or
output and holds no floating-point numbers: decimal settings and coordinates are texts
there, and points in time are numbers that the caller reads from its clock.

| Module | What it decides |
| --- | --- |
| `aim_report`, `rumble`, `crc32`, `device` | the controller's reports, in and out |
| `config`, `text` | the settings file |
| `pseye_client`, `calibration` | the camera tracker and its calibration |
| `recoil`, `pad_button`, `gun` | the trigger's recoil, pausing, and the light |
| `ds4_mode`, `lightgun_mode`, `rawinput_mode`, `held_keys`, `flags` | what each mode reports |
| `hidhide`, `json` | hiding the controller from other programs |
| `launch`, `clock` | the command line, and points in time |

`app/` is the driver around it: devices, virtual pads, sockets, files and threads, and the
floating-point arithmetic of the aim. Its loops hand what they read to the library and do
what the library answers.
