# KM003C workbench

A workbench for the ChargerLAB KM003C USB power meter: live measurement of
voltage, current and power, a chart with a time navigator, recordings that
survive pauses, disconnections and crashes, and an analysis of the USB power
delivery protocol.

`src/` is the library. Everything in it is verified by Verus; its laws are the
public proof functions whose names begin with `law_`. Two functions are believed
rather than proved: in `utc`, the two wrappers through which chrono and chrono-tz
write an instant as text.

| Modules | What they hold |
| --- | --- |
| `measurement`, `live`, `statistics`, `navigator` | samples, exact charge and energy, the bounded live buffer and its overview |
| `chart`, `chart_state`, `trace`, `lines`, `sources` | the viewport, downsampling and smoothing, what is drawn and read out |
| `recording`, `recording_import`, `recording_session`, `recording_copy`, `recovery_list` | rows and files, their columns, copies, the metadata and segments of a session |
| `session_core`, `recording_control`, `control_*` | the recording session: start, pause, resume, rotate, save, recover |
| `link`, `port`, `streaming`, `offline`, `imports` | the device connection, its test port, the conversation with it, stored and imported recordings |
| `pd_decoder`, `pd_log`, `pd_quantity`, `pd_laws`, `pd_panel`, `timeline` | the power delivery protocol |
| `presentation`, `binary64`, `text`, `cards`, `toolbar`, `layout`, `settings`, `i18n`, `theme`, `options` | what is shown, and how it is worded |
| `workbench`, `preferences`, `demo` | the whole application as a state machine |
| `utc` | instants, and their text in the time zone of the display |

Amounts of charge and energy are integers: one microampere hour is
7,200,000,000 units, twice a microampere microsecond each. Measured voltages,
currents and powers are whole millionths of their units; their averages are
kept to a billionth of a millionth.

`app/` is the application around the library: the window, the files and the USB
device. `tests/` holds the tests.
