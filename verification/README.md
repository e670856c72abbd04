# Accessible OBS

Remote control of OBS Studio for people who cannot see its window, and for those who help them.

An agent runs beside OBS and serves a panel for the browser. Through it scenes are switched, sound
is mixed, the broadcast is started and watched, donations and the chat are read aloud. Before the
broadcast it answers one question: can it start, and if not, why.

## Layout

- `src/` is the library: everything that is decided. What a reply of OBS means, who may use the
  panel, whether the broadcast may start, how donations reach the audience, what the operator is
  told and when. Every function states what it returns, and Verus proves it. The library does no
  input or output.
- `app/` is the program around it: the agent, the setup and the start page. It talks to OBS, to the
  network and to the disk, hands the library plain values and does what the library says.
- `tests/` runs the library on concrete values.

Work that alternates between questions to OBS and decisions is a state machine in the library:
`reconcile`, `readiness::ReadyWork`, `audio::AudioWork`, `sources`, `donationalerts::FeedSession`.
The program asks what the machine says and hands it the reply.

Numbers with a fraction are held by the bits of the double-precision number (`number::Reading`). What
is computed of them is computed on whole numbers of any size (`big`) and rounded as IEEE 754 has it.
The loudest peak of a meter and the logarithms of decibels are in `app/levels.rs`.
